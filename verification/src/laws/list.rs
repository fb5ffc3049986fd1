//! What holds of the list of downloads as it is shown.
use crate::app::App;
use crate::downloads_view::{
    download_ranks, is_shown, keeps, kept, kept_count, shown_positions, DownloadsView,
    DownloadsViewModel, SortBy,
};
use crate::engine::TorrentSnapshot;
use crate::laws::texts::{is_around, is_lesser_at, lemma_text_order};
use crate::order::{comes_before, lemma_sort_has_an_order, picked};
use crate::text::{holds_text, lemma_text_le_total, lowercased};
use vstd::prelude::*;
use vstd::string::*;

verus! {

/// Whether a filter leaves a download of some name in the list: it is empty, or the name with case
/// aside is the filter with case aside and something in front and behind.
pub open spec fn leaves(filter: Seq<char>, name: Seq<char>) -> bool {
    filter.len() == 0 || exists|front: Seq<char>, back: Seq<char>| #[trigger]
        is_around(lowercased(name), front, lowercased(filter), back)
}

/// How many downloads a filter leaves in the list.
pub open spec fn count_left(downloads: Seq<TorrentSnapshot>, filter: Seq<char>) -> nat
    decreases downloads.len(),
{
    if downloads.len() == 0 {
        0
    } else if leaves(filter, downloads.last().name@) {
        count_left(downloads.drop_last(), filter) + 1
    } else {
        count_left(downloads.drop_last(), filter)
    }
}

proof fn lemma_leaves(filter: Seq<char>, name: Seq<char>)
    ensures
        keeps(filter, name) <==> leaves(filter, name),
{
    let text = lowercased(name);
    let part = lowercased(filter);
    if holds_text(text, part) {
        let at = choose|at: int|
            0 <= at <= text.len() - part.len() && #[trigger] text.subrange(at, at + part.len())
                == part;
        let front = text.take(at);
        let back = text.skip(at + part.len());
        assert(text =~= front + part + back);
        assert(is_around(text, front, part, back));
    }
    if exists|front: Seq<char>, back: Seq<char>| #[trigger] is_around(text, front, part, back) {
        let (front, back) = choose|front: Seq<char>, back: Seq<char>| #[trigger]
            is_around(text, front, part, back);
        let at = front.len() as int;
        assert(text.subrange(at, at + part.len()) =~= part);
    }
}

pub proof fn lemma_count_left(downloads: Seq<TorrentSnapshot>, filter: Seq<char>)
    ensures
        kept(downloads, filter).len() == count_left(downloads, filter),
        count_left(downloads, filter) <= downloads.len(),
    decreases downloads.len(),
{
    if downloads.len() > 0 {
        lemma_count_left(downloads.drop_last(), filter);
        lemma_leaves(filter, downloads.last().name@);
    }
}

/// As many downloads are counted as the filter leaves.
pub proof fn the_downloads_left_are_counted(
    downloads: &Vec<TorrentSnapshot>,
    filter: &str,
    count: usize,
)
    requires
        call_ensures(kept_count, (downloads, filter), count),
    ensures
        count == count_left(downloads@, filter@),
{
    lemma_count_left(downloads@, filter@);
}

/// Where the kept downloads stand among all, in their order.
proof fn lemma_places_of_the_kept(
    downloads: Seq<TorrentSnapshot>,
    filter: Seq<char>,
) -> (places: Seq<int>)
    ensures
        ({
            let left = kept(downloads, filter);
            &&& places.len() == left.len()
            &&& forall|i: int|
                0 <= i < places.len() ==> 0 <= #[trigger] places[i] < downloads.len() && left[i]
                    == downloads[places[i]] && leaves(filter, downloads[places[i]].name@)
            &&& forall|i: int, j: int|
                0 <= i < j < places.len() ==> #[trigger] places[i] < #[trigger] places[j]
            &&& forall|k: int|
                0 <= k < downloads.len() && leaves(filter, (#[trigger] downloads[k]).name@)
                    ==> places.contains(k)
        }),
    decreases downloads.len(),
{
    if downloads.len() == 0 {
        Seq::empty()
    } else {
        let front = downloads.drop_last();
        let earlier = lemma_places_of_the_kept(front, filter);
        lemma_leaves(filter, downloads.last().name@);
        assert forall|i: int| 0 <= i < earlier.len() implies downloads[#[trigger] earlier[i]]
            == front[earlier[i]] by {
        }
        if leaves(filter, downloads.last().name@) {
            let places = earlier.push(downloads.len() - 1);
            let left = kept(downloads, filter);
            assert forall|i: int| 0 <= i < places.len() implies 0 <= #[trigger] places[i]
                < downloads.len() && left[i] == downloads[places[i]] && leaves(
                filter,
                downloads[places[i]].name@,
            ) by {
                if i < earlier.len() {
                    assert(places[i] == earlier[i]);
                    assert(left[i] == kept(front, filter)[i]);
                }
            }
            assert forall|k: int|
                0 <= k < downloads.len() && leaves(filter, (#[trigger] downloads[k]).name@) implies
                places.contains(k) by {
                if k < front.len() {
                    assert(front[k] == downloads[k]);
                    let i = choose|i: int| 0 <= i < earlier.len() && earlier[i] == k;
                    assert(places[i] == k);
                } else {
                    assert(places[earlier.len() as int] == k);
                }
            }
            places
        } else {
            assert forall|k: int|
                0 <= k < downloads.len() && leaves(filter, (#[trigger] downloads[k]).name@) implies
                earlier.contains(k) by {
                assert(k < front.len());
                assert(front[k] == downloads[k]);
            }
            earlier
        }
    }
}

/// Whether a download belongs in front of another under a sort key: by number, by name with case
/// aside, by size or by what is there, and by its place where that is alike.
pub open spec fn belongs_above(
    a: TorrentSnapshot,
    b: TorrentSnapshot,
    place_a: int,
    place_b: int,
    sort: SortBy,
) -> bool {
    let folded_a = lowercased(a.name@);
    let folded_b = lowercased(b.name@);
    &&& sort == SortBy::Number ==> a.id < b.id || (a.id == b.id && place_a < place_b)
    &&& sort == SortBy::Name ==> (exists|place: int| #[trigger]
        is_lesser_at(folded_a, folded_b, place)) && (folded_a == folded_b ==> place_a < place_b)
    &&& sort == SortBy::Size ==> a.total_bytes < b.total_bytes || (a.total_bytes == b.total_bytes
        && place_a < place_b)
    &&& sort == SortBy::Downloaded ==> a.progress_bytes < b.progress_bytes || (a.progress_bytes
        == b.progress_bytes && place_a < place_b)
}

/// `places` are those of the downloads that are shown: each that the filter leaves once, in the
/// order of the sort key, or in the opposite one where the order is reversed.
pub open spec fn are_places_shown(
    places: Seq<int>,
    downloads: Seq<TorrentSnapshot>,
    filter: Seq<char>,
    sort: SortBy,
    reversed: bool,
    shown: Seq<TorrentSnapshot>,
) -> bool {
    &&& places.len() == shown.len()
    &&& forall|i: int|
        0 <= i < places.len() ==> 0 <= #[trigger] places[i] < downloads.len() && shown[i]
            == downloads[places[i]] && leaves(filter, shown[i].name@)
    &&& forall|i: int, j: int|
        0 <= i < j < places.len() ==> {
            &&& #[trigger] places[i] != #[trigger] places[j]
            &&& !reversed ==> belongs_above(shown[i], shown[j], places[i], places[j], sort)
            &&& reversed ==> belongs_above(shown[j], shown[i], places[j], places[i], sort)
        }
    &&& forall|k: int|
        0 <= k < downloads.len() && leaves(filter, (#[trigger] downloads[k]).name@)
            ==> places.contains(k)
}

pub proof fn lemma_shown(
    downloads: Seq<TorrentSnapshot>,
    view: DownloadsViewModel,
    shown: Seq<TorrentSnapshot>,
)
    requires
        downloads.len() <= usize::MAX,
        is_shown(downloads, view, shown),
    ensures
        exists|places: Seq<int>| #[trigger]
            are_places_shown(places, downloads, view.filter, view.sort, view.reversed, shown),
        shown.len() == count_left(downloads, view.filter),
{
    let left = kept(downloads, view.filter);
    let all = download_ranks(left, view.sort);
    let sorted = if view.reversed {
        shown.reverse()
    } else {
        shown
    };
    let order = lemma_sort_has_an_order(left, all, sorted);
    let at = lemma_places_of_the_kept(downloads, view.filter);
    let n = shown.len() as int;
    lemma_count_left(downloads, view.filter);
    assert(shown.reverse().len() == shown.len());
    assert(sorted.len() == n && order.len() == n);
    let places = Seq::new(
        order.len(),
        |i: int|
            at[order[if view.reversed {
                n - 1 - i
            } else {
                i
            }] as int],
    );
    assert forall|i: int| 0 <= i < n implies 0 <= #[trigger] places[i] < downloads.len()
        && shown[i] == downloads[places[i]] && leaves(view.filter, shown[i].name@) by {
        let a: int = if view.reversed {
            n - 1 - i
        } else {
            i
        };
        assert(sorted[a] == left[order[a] as int]);
        assert(places[i] == at[order[a] as int]);
        assert(shown[i] == sorted[a]);
    }
    assert forall|i: int, j: int| 0 <= i < j < n implies {
        &&& #[trigger] places[i] != #[trigger] places[j]
        &&& !view.reversed ==> belongs_above(
            shown[i],
            shown[j],
            places[i],
            places[j],
            view.sort,
        )
        &&& view.reversed ==> belongs_above(shown[j], shown[i], places[j], places[i], view.sort)
    } by {
        let (p, q): (int, int) = if view.reversed {
            (j, i)
        } else {
            (i, j)
        };
        let (a, b): (int, int) = if view.reversed {
            (n - 1 - j, n - 1 - i)
        } else {
            (i, j)
        };
        let x = order[a] as int;
        let y = order[b] as int;
        assert(comes_before(all, x, y));
        assert(places[p] == at[x] && places[q] == at[y]);
        assert(shown[p] == left[x] && shown[q] == left[y]);
        lemma_text_order(all[x].text, all[y].text);
        lemma_text_order(all[y].text, all[x].text);
        lemma_text_le_total(all[x].text, all[y].text);
        if x < y {
            assert(at[x] < at[y]);
        } else {
            assert(at[y] < at[x]);
        }
        assert(belongs_above(shown[p], shown[q], places[p], places[q], view.sort));
    }
    assert forall|k: int|
        0 <= k < downloads.len() && leaves(view.filter, (#[trigger] downloads[k]).name@) implies
        places.contains(k) by {
        let x = choose|x: int| 0 <= x < at.len() && at[x] == k;
        assert(order.contains(x as usize));
        let a = choose|a: int| 0 <= a < order.len() && order[a] == x as usize;
        let i: int = if view.reversed {
            n - 1 - a
        } else {
            a
        };
        assert(places[i] == k);
    }
    assert(are_places_shown(places, downloads, view.filter, view.sort, view.reversed, shown));
}

/// The downloads at some positions.
pub open spec fn at_positions(downloads: Seq<TorrentSnapshot>, positions: Seq<usize>) -> Seq<
    TorrentSnapshot,
> {
    Seq::new(positions.len(), |i: int| downloads[positions[i] as int])
}

/// The downloads that are shown are those that the filter leaves, each once, in the order of the
/// sort key or in the opposite one; whether the view is compact changes neither.
pub proof fn the_list_shows_what_the_filter_leaves_in_order(
    downloads: &Vec<TorrentSnapshot>,
    view: &DownloadsView,
    positions: Vec<usize>,
)
    requires
        call_ensures(shown_positions, (downloads, view), positions),
    ensures
        forall|i: int| 0 <= i < positions@.len() ==> #[trigger] positions@[i] < downloads@.len(),
        exists|places: Seq<int>| #[trigger]
            are_places_shown(
                places,
                downloads@,
                view.filter@,
                view.sort,
                view.reversed,
                at_positions(downloads@, positions@),
            ),
{
    let shown = picked(downloads@, positions@);
    assert(downloads@.len() == downloads.len());
    lemma_shown(downloads@, view@, shown);
    assert(shown =~= at_positions(downloads@, positions@));
}

/// Whether the download that is shown in detail is the selected one of those that are shown.
pub open spec fn is_selected_of(
    res: Option<&TorrentSnapshot>,
    selected: Option<usize>,
    shown: Seq<TorrentSnapshot>,
) -> bool {
    if selected is Some && selected->0 < shown.len() {
        res is Some && *res->0 == shown[selected->0 as int]
    } else {
        res is None
    }
}

/// The download that is shown in detail stands at the selected place of the list.
pub proof fn the_selected_download_is_shown_in_detail(app: &App, res: Option<&TorrentSnapshot>)
    requires
        call_ensures(App::selected_download, (app,), res),
        app@.downloads.len() <= usize::MAX,
    ensures
        exists|places: Seq<int>, shown: Seq<TorrentSnapshot>|
            {
                &&& #[trigger] are_places_shown(
                    places,
                    app@.downloads,
                    app@.downloads_view.filter,
                    app@.downloads_view.sort,
                    app@.downloads_view.reversed,
                    shown,
                )
                &&& is_selected_of(res, app@.downloads_selected, shown)
            },
{
    let view = app@.downloads_view;
    let shown = choose|shown: Seq<TorrentSnapshot>| #[trigger]
        is_shown(app@.downloads, app@.downloads_view, shown) && (match app@.downloads_selected {
            Some(selected) if selected < shown.len() => res == Some(&shown[selected as int]),
            _ => res is None,
        });
    lemma_shown(app@.downloads, view, shown);
    let places = choose|places: Seq<int>| #[trigger]
        are_places_shown(places, app@.downloads, view.filter, view.sort, view.reversed, shown);
    assert(is_selected_of(res, app@.downloads_selected, shown));
}

/// The list of the interface is that of its downloads and its view.
pub proof fn the_interface_shows_its_list(app: &App, positions: Vec<usize>)
    requires
        call_ensures(App::shown_downloads, (app,), positions),
        app@.downloads.len() <= usize::MAX,
    ensures
        forall|i: int| 0 <= i < positions@.len() ==> #[trigger] positions@[i] < app@.downloads.len(),
        exists|places: Seq<int>| #[trigger]
            are_places_shown(
                places,
                app@.downloads,
                app@.downloads_view.filter,
                app@.downloads_view.sort,
                app@.downloads_view.reversed,
                at_positions(app@.downloads, positions@),
            ),
{
    let shown = picked(app@.downloads, positions@);
    lemma_shown(app@.downloads, app@.downloads_view, shown);
    assert(shown =~= at_positions(app@.downloads, positions@));
}

/// The list starts with all downloads by number, in full.
pub proof fn the_plain_list_is_unfiltered(view: DownloadsView)
    requires
        call_ensures(DownloadsView::plain, (), view),
    ensures
        view.filter@.len() == 0,
        view.sort == SortBy::Number,
        !view.reversed,
        !view.compact,
{
}

/// The sort keys stand in one order, and the one above or below another is its neighbour in it, or
/// itself at an end.
pub proof fn sort_keys_have_neighbours(sort: SortBy, above: SortBy, below: SortBy)
    requires
        call_ensures(SortBy::above, (sort,), above),
        call_ensures(SortBy::below, (sort,), below),
    ensures
        ({
            let keys = seq![SortBy::Number, SortBy::Name, SortBy::Size, SortBy::Downloaded];
            forall|i: int|
                0 <= i < 4 && #[trigger] keys[i] == sort ==> {
                    &&& above == keys[if i == 0 {
                        0
                    } else {
                        i - 1
                    }]
                    &&& below == keys[if i == 3 {
                        3
                    } else {
                        i + 1
                    }]
                }
        }),
{
}

} // verus!
