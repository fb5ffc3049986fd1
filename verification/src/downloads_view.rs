//! The list of downloads as it is shown: which of them, in what order, how much of each, and the
//! dialogs that change this.
use crate::engine::TorrentSnapshot;
use crate::order::{is_stable_order, is_stable_sort, picked, ranks, stable_order, Rank, SortKey};
use crate::text::{
    chars_of, holds_text, is_text_held, is_text_le, lemma_text_le_total, lemma_text_le_transitive,
    lowercased, text_le,
};
use vstd::prelude::*;
use vstd::string::*;

verus! {

// ---------------------------------------------------------------------------------------------
// Settings
// ---------------------------------------------------------------------------------------------

/// What downloads are sorted by.
#[derive(Clone, Copy, Debug, PartialEq, Eq, Structural)]
pub enum SortBy {
    /// The number in the session.
    Number,
    /// The name, its case aside.
    Name,
    /// The bytes in all.
    Size,
    /// The bytes that are there.
    Downloaded,
}

/// What a sort key is called.
pub open spec fn sort_title(sort: SortBy) -> Seq<char> {
    match sort {
        SortBy::Number => "Number"@,
        SortBy::Name => "Name"@,
        SortBy::Size => "Size"@,
        SortBy::Downloaded => "Downloaded"@,
    }
}

/// The sort key above, the first being the one above itself.
pub open spec fn sort_above(sort: SortBy) -> SortBy {
    match sort {
        SortBy::Number => SortBy::Number,
        SortBy::Name => SortBy::Number,
        SortBy::Size => SortBy::Name,
        SortBy::Downloaded => SortBy::Size,
    }
}

/// The sort key below, the last being the one below itself.
pub open spec fn sort_below(sort: SortBy) -> SortBy {
    match sort {
        SortBy::Number => SortBy::Name,
        SortBy::Name => SortBy::Size,
        SortBy::Size => SortBy::Downloaded,
        SortBy::Downloaded => SortBy::Downloaded,
    }
}

impl SortBy {
    /// The sort keys from the first to the last.
    pub fn all() -> (sorts: [SortBy; 4])
        ensures
            sorts@ == seq![SortBy::Number, SortBy::Name, SortBy::Size, SortBy::Downloaded],
    {
        [SortBy::Number, SortBy::Name, SortBy::Size, SortBy::Downloaded]
    }

    /// What the sort key is called.
    pub fn title(self) -> (title: &'static str)
        ensures
            title@ == sort_title(self),
    {
        match self {
            SortBy::Number => "Number",
            SortBy::Name => "Name",
            SortBy::Size => "Size",
            SortBy::Downloaded => "Downloaded",
        }
    }

    /// The sort key above.
    pub fn above(self) -> (sort: SortBy)
        ensures
            sort == sort_above(self),
    {
        match self {
            SortBy::Number => SortBy::Number,
            SortBy::Name => SortBy::Number,
            SortBy::Size => SortBy::Name,
            SortBy::Downloaded => SortBy::Size,
        }
    }

    /// The sort key below.
    pub fn below(self) -> (sort: SortBy)
        ensures
            sort == sort_below(self),
    {
        match self {
            SortBy::Number => SortBy::Name,
            SortBy::Name => SortBy::Size,
            SortBy::Size => SortBy::Downloaded,
            SortBy::Downloaded => SortBy::Downloaded,
        }
    }
}

/// How the list of downloads is shown.
#[derive(Debug)]
pub struct DownloadsView {
    pub filter: String,
    pub sort: SortBy,
    pub reversed: bool,
    pub compact: bool,
}

/// A `DownloadsView` in contracts.
#[verifier::ext_equal]
pub struct DownloadsViewModel {
    pub filter: Seq<char>,
    pub sort: SortBy,
    pub reversed: bool,
    pub compact: bool,
}

impl View for DownloadsView {
    type V = DownloadsViewModel;

    open spec fn view(&self) -> DownloadsViewModel {
        DownloadsViewModel {
            filter: self.filter@,
            sort: self.sort,
            reversed: self.reversed,
            compact: self.compact,
        }
    }
}

/// How the list is shown as long as nothing is changed: all of it, by number, expanded.
pub open spec fn plain_view() -> DownloadsViewModel {
    DownloadsViewModel {
        filter: Seq::empty(),
        sort: SortBy::Number,
        reversed: false,
        compact: false,
    }
}

impl DownloadsView {
    /// How the list is shown as long as nothing is changed.
    pub fn plain() -> (view: DownloadsView)
        ensures
            view@ == plain_view(),
    {
        DownloadsView {
            filter: String::new(),
            sort: SortBy::Number,
            reversed: false,
            compact: false,
        }
    }
}

// ---------------------------------------------------------------------------------------------
// Dialogs
// ---------------------------------------------------------------------------------------------

/// A dialog on the list of downloads.
#[derive(Debug)]
pub enum Dialog {
    /// The filter, as far as it is typed.
    Filter(String),
    /// The sort key that is chosen so far.
    Sort(SortBy),
    /// Whether to clear the filter.
    ConfirmClear,
    /// Whether to quit.
    ConfirmQuit,
}

/// A `Dialog` in contracts.
#[verifier::ext_equal]
pub enum DialogModel {
    Filter(Seq<char>),
    Sort(SortBy),
    ConfirmClear,
    ConfirmQuit,
}

impl View for Dialog {
    type V = DialogModel;

    open spec fn view(&self) -> DialogModel {
        match *self {
            Dialog::Filter(draft) => DialogModel::Filter(draft@),
            Dialog::Sort(choice) => DialogModel::Sort(choice),
            Dialog::ConfirmClear => DialogModel::ConfirmClear,
            Dialog::ConfirmQuit => DialogModel::ConfirmQuit,
        }
    }
}

// ---------------------------------------------------------------------------------------------
// The filter
// ---------------------------------------------------------------------------------------------

/// Whether a filter keeps a download of some name: an empty one keeps all, another those whose
/// name holds it, case aside.
pub open spec fn keeps(filter: Seq<char>, name: Seq<char>) -> bool {
    filter.len() == 0 || holds_text(lowercased(name), lowercased(filter))
}

/// The downloads that a filter keeps, in their order.
pub open spec fn kept(downloads: Seq<TorrentSnapshot>, filter: Seq<char>) -> Seq<TorrentSnapshot>
    decreases downloads.len(),
{
    if downloads.len() == 0 {
        Seq::empty()
    } else {
        let earlier = kept(downloads.drop_last(), filter);
        if keeps(filter, downloads.last().name@) {
            earlier.push(downloads.last())
        } else {
            earlier
        }
    }
}

/// A filter keeps no more downloads than there are.
pub proof fn lemma_kept_length(downloads: Seq<TorrentSnapshot>, filter: Seq<char>)
    ensures
        kept(downloads, filter).len() <= downloads.len(),
    decreases downloads.len(),
{
    if downloads.len() > 0 {
        lemma_kept_length(downloads.drop_last(), filter);
    }
}

/// Whether a filter keeps a download; `folded` is the filter with case aside.
fn is_kept(filter: &str, folded: &Vec<char>, name: &str) -> (res: bool)
    requires
        folded@ == lowercased(filter@),
    ensures
        res == keeps(filter@, name@),
{
    filter.is_empty() || is_text_held(&chars_of(name.to_lowercase().as_str()), folded)
}

/// The positions of the downloads that a filter keeps.
fn kept_positions(downloads: &Vec<TorrentSnapshot>, filter: &str) -> (positions: Vec<usize>)
    ensures
        forall|j: int|
            0 <= j < positions@.len() ==> 0 <= #[trigger] positions@[j] < downloads@.len(),
        picked(downloads@, positions@) == kept(downloads@, filter@),
{
    let folded = chars_of(filter.to_lowercase().as_str());
    let mut positions: Vec<usize> = Vec::new();
    let mut i: usize = 0;
    assert(picked(downloads@, positions@) =~= kept(downloads@.take(0), filter@));
    while i < downloads.len()
        invariant
            folded@ == lowercased(filter@),
            i <= downloads@.len(),
            forall|j: int|
                0 <= j < positions@.len() ==> 0 <= #[trigger] positions@[j] < downloads@.len(),
            picked(downloads@, positions@) == kept(downloads@.take(i as int), filter@),
        decreases downloads@.len() - i,
    {
        let ghost before = positions@;
        proof {
            assert(downloads@.take(i + 1).drop_last() =~= downloads@.take(i as int));
        }
        if is_kept(filter, &folded, downloads[i].name.as_str()) {
            positions.push(i);
            assert(picked(downloads@, positions@) =~= picked(downloads@, before).push(
                downloads@[i as int],
            ));
        }
        i = i + 1;
    }
    assert(downloads@.take(i as int) =~= downloads@);
    positions
}

/// How many downloads a filter keeps.
pub fn kept_count(downloads: &Vec<TorrentSnapshot>, filter: &str) -> (count: usize)
    ensures
        count == kept(downloads@, filter@).len(),
{
    kept_positions(downloads, filter).len()
}

// ---------------------------------------------------------------------------------------------
// The order
// ---------------------------------------------------------------------------------------------

/// What downloads are sorted by.
pub struct DownloadRank {
    pub number: int,
    pub text: Seq<char>,
}

impl Rank for DownloadRank {
    open spec fn le(self, other: DownloadRank) -> bool {
        if self.number == other.number {
            text_le(self.text, other.text)
        } else {
            self.number < other.number
        }
    }

    proof fn le_total(a: DownloadRank, b: DownloadRank) {
        lemma_text_le_total(a.text, b.text);
    }

    proof fn le_transitive(a: DownloadRank, b: DownloadRank, c: DownloadRank) {
        if a.number == b.number && b.number == c.number {
            lemma_text_le_transitive(a.text, b.text, c.text);
        }
    }
}

/// What a download is sorted by under a sort key.
pub open spec fn download_rank(download: TorrentSnapshot, sort: SortBy) -> DownloadRank {
    match sort {
        SortBy::Number => DownloadRank { number: download.id as int, text: Seq::empty() },
        SortBy::Name => DownloadRank { number: 0, text: lowercased(download.name@) },
        SortBy::Size => DownloadRank { number: download.total_bytes as int, text: Seq::empty() },
        SortBy::Downloaded => DownloadRank {
            number: download.progress_bytes as int,
            text: Seq::empty(),
        },
    }
}

/// The ranks of downloads.
pub open spec fn download_ranks(downloads: Seq<TorrentSnapshot>, sort: SortBy) -> Seq<
    DownloadRank,
> {
    Seq::new(downloads.len(), |i: int| download_rank(downloads[i], sort))
}

/// The key that a download is sorted by.
struct DownloadKey {
    number: u64,
    text: Vec<char>,
}

impl SortKey for DownloadKey {
    type Rank = DownloadRank;

    closed spec fn rank(self) -> DownloadRank {
        DownloadRank { number: self.number as int, text: self.text@ }
    }

    fn is_le(&self, other: &DownloadKey) -> (res: bool) {
        if self.number == other.number {
            is_text_le(&self.text, &other.text)
        } else {
            self.number < other.number
        }
    }
}

/// The key of a download under a sort key.
fn download_key(download: &TorrentSnapshot, sort: SortBy) -> (key: DownloadKey)
    ensures
        key.rank() == download_rank(*download, sort),
{
    let key = match sort {
        SortBy::Number => DownloadKey { number: download.id as u64, text: Vec::new() },
        SortBy::Name => DownloadKey {
            number: 0,
            text: chars_of(download.name.as_str().to_lowercase().as_str()),
        },
        SortBy::Size => DownloadKey { number: download.total_bytes, text: Vec::new() },
        SortBy::Downloaded => DownloadKey { number: download.progress_bytes, text: Vec::new() },
    };
    assert(key.rank().text =~= download_rank(*download, sort).text);
    key
}

// ---------------------------------------------------------------------------------------------
// What is shown
// ---------------------------------------------------------------------------------------------

/// `shown` are the downloads as they are shown: those that the filter keeps, sorted, and turned
/// round where the order is reversed.
pub open spec fn is_shown(
    downloads: Seq<TorrentSnapshot>,
    view: DownloadsViewModel,
    shown: Seq<TorrentSnapshot>,
) -> bool {
    let left = kept(downloads, view.filter);
    is_stable_sort(
        left,
        download_ranks(left, view.sort),
        if view.reversed {
            shown.reverse()
        } else {
            shown
        },
    )
}

/// The positions of the downloads that are shown, in the order in which they are.
pub fn shown_positions(downloads: &Vec<TorrentSnapshot>, view: &DownloadsView) -> (positions: Vec<
    usize,
>)
    ensures
        forall|j: int|
            0 <= j < positions@.len() ==> 0 <= #[trigger] positions@[j] < downloads@.len(),
        positions@.len() == kept(downloads@, view@.filter).len(),
        is_shown(downloads@, view@, picked(downloads@, positions@)),
{
    let left = kept_positions(downloads, view.filter.as_str());
    let ghost kept_ones = kept(downloads@, view@.filter);
    let mut keys: Vec<DownloadKey> = Vec::new();
    let mut i: usize = 0;
    while i < left.len()
        invariant
            i <= left@.len(),
            forall|j: int| 0 <= j < left@.len() ==> 0 <= #[trigger] left@[j] < downloads@.len(),
            keys@.len() == i,
            forall|j: int|
                0 <= j < i ==> (#[trigger] keys@[j]).rank() == download_rank(
                    downloads@[left@[j] as int],
                    view.sort,
                ),
        decreases left@.len() - i,
    {
        keys.push(download_key(&downloads[left[i]], view.sort));
        i = i + 1;
    }
    assert(ranks(keys@) =~= download_ranks(kept_ones, view.sort)) by {
        assert(kept_ones =~= picked(downloads@, left@));
    }
    let order = stable_order(&keys);
    let total: usize = order.len();
    let mut positions: Vec<usize> = Vec::new();
    let mut n: usize = 0;
    while n < total
        invariant
            n <= total,
            total == order@.len(),
            total == left@.len(),
            forall|j: int| 0 <= j < order@.len() ==> 0 <= #[trigger] order@[j] < left@.len(),
            forall|j: int| 0 <= j < left@.len() ==> 0 <= #[trigger] left@[j] < downloads@.len(),
            positions@.len() == n,
            forall|j: int|
                0 <= j < n ==> #[trigger] positions@[j] == left@[order@[if view.reversed {
                    total - 1 - j
                } else {
                    j
                }] as int],
        decreases total - n,
    {
        let at: usize = if view.reversed {
            total - 1 - n
        } else {
            n
        };
        positions.push(left[order[at]]);
        n = n + 1;
    }
    proof {
        let shown = picked(downloads@, positions@);
        let sorted = if view.reversed {
            shown.reverse()
        } else {
            shown
        };
        assert forall|j: int| 0 <= j < total implies sorted[j] == picked(kept_ones, order@)[j] by {
            let k: int = if view.reversed {
                total - 1 - j
            } else {
                j
            };
            assert(sorted[j] == downloads@[positions@[k] as int]);
            assert(kept_ones[order@[j] as int] == picked(downloads@, left@)[order@[j] as int]);
        }
        assert(sorted =~= picked(kept_ones, order@));
        assert(is_stable_order(download_ranks(kept_ones, view.sort), order@));
    }
    positions
}

} // verus!
