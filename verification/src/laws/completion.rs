//! What holds of the completion of typed paths.
use crate::completion_state::CompletionState;
use crate::errors::CompletionError;
use crate::form::{CompletionDirection, FormField};
use crate::laws::paths::{lemma_dot_at, lemma_dot_before, lemma_torrent_bytes};
use crate::laws::texts::{is_lesser_at, lemma_text_order};
use crate::order::{comes_before, lemma_sort_has_an_order};
use crate::path_completion::{
    candidate_models, candidate_ranks, collect_candidates, lower_byte, matches_mode, offered,
    shared, shared_by_all, shared_length, shared_prefix, spells_torrent, CompletionCandidate,
    CompletionQuery, CompletionSet, DirEntry, Listing, LookupModel, PathCompletionMode,
    ReadFailure,
};
use crate::paths::{extension_of, final_component, past_last_dot, path_bytes};
use crate::preview::{completion_window, preview_candidates, CompletionPreview};
use crate::text::{lemma_text_le_total, lowercased};
use std::path::PathBuf;
use vstd::prelude::*;
use vstd::string::*;
use vstd::utf8::encode_utf8;

verus! {

// ---------------------------------------------------------------------------------------------
// Which entries are offered
// ---------------------------------------------------------------------------------------------

/// Whether a byte is a letter of ASCII, given its lowercase and its capital form.
pub open spec fn is_either(byte: u8, lower: u8, capital: u8) -> bool {
    byte == lower || byte == capital
}

/// Whether a file name has something in front of `.torrent`, which it ends with in letters of
/// either case.
pub open spec fn ends_in_torrent(component: Seq<u8>) -> bool {
    let n = component.len();
    &&& n > 8
    &&& component[n - 8] == 46
    &&& is_either(component[n - 7], 116, 84)
    &&& is_either(component[n - 6], 111, 79)
    &&& is_either(component[n - 5], 114, 82)
    &&& is_either(component[n - 4], 114, 82)
    &&& is_either(component[n - 3], 101, 69)
    &&& is_either(component[n - 2], 110, 78)
    &&& is_either(component[n - 1], 116, 84)
}

proof fn lemma_torrent_spelling(component: Seq<u8>)
    ensures
        extension_of(component) is Some && spells_torrent(extension_of(component)->0)
            <==> ends_in_torrent(component),
{
    let n = component.len();
    lemma_torrent_bytes();
    lemma_dot_before(component);
    let wanted = seq![116u8, 111, 114, 114, 101, 110, 116];
    if extension_of(component) is Some && spells_torrent(extension_of(component)->0) {
        let k = past_last_dot(component);
        let ending = component.skip(k);
        let lowered = Seq::new(ending.len(), |i: int| lower_byte(ending[i]));
        assert(lowered == wanted);
        assert(ending.len() == 7);
        assert forall|i: int| 0 <= i < 7 implies lower_byte(#[trigger] component[k + i])
            == wanted[i] by {
            assert(lowered[i] == wanted[i]);
            assert(ending[i] == component[k + i]);
        }
        assert(component[k + 0] == component[n - 7]);
        assert(component[k + 1] == component[n - 6]);
        assert(component[k + 2] == component[n - 5]);
        assert(component[k + 3] == component[n - 4]);
        assert(component[k + 4] == component[n - 3]);
        assert(component[k + 5] == component[n - 2]);
        assert(component[k + 6] == component[n - 1]);
    }
    if ends_in_torrent(component) {
        let front = component.take(n - 8);
        let ending = component.skip(n - 7);
        assert(component =~= front.push(46) + ending);
        assert forall|i: int| 0 <= i < 7 implies ending[i] != 46 by {
            assert(ending[i] == component[n - 7 + i]);
        }
        lemma_dot_at(component, front, ending);
        let lowered = Seq::new(ending.len(), |i: int| lower_byte(ending[i]));
        assert(lowered =~= wanted);
    }
}

/// Directories are admitted in either mode, files where a torrent file is completed and their name
/// ends with `.torrent` behind something else, and nothing else.
pub proof fn directories_and_torrents_are_admitted(
    path: &PathBuf,
    is_dir: bool,
    is_file: bool,
    mode: PathCompletionMode,
    res: bool,
)
    requires
        call_ensures(matches_mode, (path, is_dir, is_file, mode), res),
    ensures
        res <==> is_dir || (is_file && mode == PathCompletionMode::TorrentFile
            && final_component(path_bytes(*path)) is Some && ends_in_torrent(
            final_component(path_bytes(*path))->0,
        )),
{
    if let Some(component) = final_component(path_bytes(*path)) {
        lemma_torrent_spelling(component);
    }
}

/// Whether an entry completes a text: it is a directory, or a torrent file where one is completed,
/// and its name is text that begins with the text, the text itself included.
pub open spec fn completes(entry: DirEntry, typed: Seq<char>, mode: PathCompletionMode) -> bool {
    &&& entry.is_dir || (entry.is_file && mode == PathCompletionMode::TorrentFile
        && final_component(path_bytes(entry.path)) is Some && ends_in_torrent(
        final_component(path_bytes(entry.path))->0,
    ))
    &&& entry.name is Some
    &&& typed.len() <= entry.name->0@.len()
    &&& forall|i: int| 0 <= i < typed.len() ==> #[trigger] typed[i] == entry.name->0@[i]
}

/// Whether a candidate is the typed directory with the name of an entry behind it, and a slash
/// behind the name of a directory.
pub open spec fn is_completion_to(
    candidate: CompletionCandidate,
    entry: DirEntry,
    raw: Seq<char>,
) -> bool {
    &&& candidate.is_dir == entry.is_dir
    &&& entry.is_dir ==> candidate.replacement@ == raw + entry.name->0@ + seq!['/']
    &&& !entry.is_dir ==> candidate.replacement@ == raw + entry.name->0@
}

/// Whether a candidate belongs in front of another: a directory in front of a file, and among
/// either what is lesser with case aside, or what was listed first where that is alike.
pub open spec fn belongs_before(
    a: CompletionCandidate,
    b: CompletionCandidate,
    place_a: int,
    place_b: int,
) -> bool {
    ||| a.is_dir && !b.is_dir
    ||| {
        let folded_a = lowercased(a.replacement@);
        let folded_b = lowercased(b.replacement@);
        &&& a.is_dir == b.is_dir
        &&& exists|place: int| #[trigger] is_lesser_at(folded_a, folded_b, place)
        &&& folded_a == folded_b ==> place_a < place_b
    }
}

/// `places` are those of the entries that the candidates complete to, one for each candidate.
pub open spec fn are_places_of(
    places: Seq<int>,
    entries: Seq<DirEntry>,
    raw: Seq<char>,
    typed: Seq<char>,
    mode: PathCompletionMode,
    candidates: Seq<CompletionCandidate>,
) -> bool {
    &&& places.len() == candidates.len()
    &&& forall|i: int|
        0 <= i < places.len() ==> {
            &&& 0 <= #[trigger] places[i] < entries.len()
            &&& completes(entries[places[i]], typed, mode)
            &&& is_completion_to(candidates[i], entries[places[i]], raw)
        }
    &&& forall|i: int, j: int|
        0 <= i < j < places.len() ==> #[trigger] places[i] != #[trigger] places[j]
            && belongs_before(candidates[i], candidates[j], places[i], places[j])
    &&& forall|k: int|
        0 <= k < entries.len() && completes(#[trigger] entries[k], typed, mode)
            ==> places.contains(k)
}

/// Where the offered entries stand among all, in the order in which they are listed.
proof fn lemma_places_of_the_offered(
    entries: Seq<DirEntry>,
    lookup: LookupModel,
    mode: PathCompletionMode,
) -> (places: Seq<int>)
    ensures
        ({
            let all = offered(entries, lookup, mode);
            &&& places.len() == all.len()
            &&& forall|i: int|
                0 <= i < places.len() ==> {
                    let entry = entries[places[i]];
                    &&& 0 <= #[trigger] places[i] < entries.len()
                    &&& completes(entry, lookup.entry_prefix, mode)
                    &&& all[i].is_dir == entry.is_dir
                    &&& entry.is_dir ==> all[i].replacement == lookup.raw_dir_prefix
                        + entry.name->0@ + seq!['/']
                    &&& !entry.is_dir ==> all[i].replacement == lookup.raw_dir_prefix
                        + entry.name->0@
                }
            &&& forall|i: int, j: int|
                0 <= i < j < places.len() ==> #[trigger] places[i] < #[trigger] places[j]
            &&& forall|k: int|
                0 <= k < entries.len() && completes(
                    #[trigger] entries[k],
                    lookup.entry_prefix,
                    mode,
                ) ==> places.contains(k)
        }),
    decreases entries.len(),
{
    if entries.len() == 0 {
        Seq::empty()
    } else {
        let front = entries.drop_last();
        let last = entries.last();
        let earlier = lemma_places_of_the_offered(front, lookup, mode);
        let all = offered(entries, lookup, mode);
        let before = offered(front, lookup, mode);
        let typed = lookup.entry_prefix;
        if let Some(component) = final_component(path_bytes(last.path)) {
            lemma_torrent_spelling(component);
        }
        if completes(last, typed, mode) {
            let name = last.name->0@;
            assert(typed =~= name.subrange(0, typed.len() as int));
            let places = earlier.push(entries.len() - 1);
            let raw = lookup.raw_dir_prefix;
            assert((raw + name).push('/') =~= raw + name + seq!['/']);
            assert forall|i: int| 0 <= i < places.len() implies {
                let entry = entries[places[i]];
                &&& 0 <= #[trigger] places[i] < entries.len()
                &&& completes(entry, typed, mode)
                &&& all[i].is_dir == entry.is_dir
                &&& entry.is_dir ==> all[i].replacement == raw + entry.name->0@ + seq!['/']
                &&& !entry.is_dir ==> all[i].replacement == raw + entry.name->0@
            } by {
                if i < earlier.len() {
                    assert(places[i] == earlier[i]);
                    assert(front[earlier[i]] == entries[places[i]]);
                    assert(all[i] == before[i]);
                }
            }
            assert forall|k: int|
                0 <= k < entries.len() && completes(#[trigger] entries[k], typed, mode) implies
                places.contains(k) by {
                if k < front.len() {
                    assert(front[k] == entries[k]);
                    let i = choose|i: int| 0 <= i < earlier.len() && earlier[i] == k;
                    assert(places[i] == k);
                } else {
                    assert(places[earlier.len() as int] == k);
                }
            }
            places
        } else {
            if typed.is_prefix_of(last.name->0@) {
                assert forall|i: int| 0 <= i < typed.len() implies #[trigger] typed[i]
                    == last.name->0@[i] by {
                    assert(last.name->0@.subrange(0, typed.len() as int)[i] == typed[i]);
                }
            }
            assert forall|i: int| 0 <= i < earlier.len() implies entries[#[trigger] earlier[i]]
                == front[earlier[i]] by {
            }
            assert forall|k: int|
                0 <= k < entries.len() && completes(#[trigger] entries[k], typed, mode) implies
                earlier.contains(k) by {
                assert(k < front.len());
                assert(front[k] == entries[k]);
            }
            earlier
        }
    }
}

/// The candidates of a listing are those entries that complete the text behind the last slash, each
/// of them once, the directories in front and either in the order of their texts with case aside.
pub proof fn candidates_are_the_entries_that_complete(
    query: CompletionQuery,
    mode: PathCompletionMode,
    listing: &Listing,
    entries: Vec<DirEntry>,
    res: Result<CompletionSet, CompletionError>,
)
    requires
        *listing == Listing::Entries(entries),
        call_ensures(collect_candidates, (query, mode, listing), res),
    ensures
        res is Ok,
        res->Ok_0.seed_input@ == query.seed_input@,
        exists|places: Seq<int>| #[trigger]
            are_places_of(
                places,
                entries@,
                query.lookup.raw_dir_prefix@,
                query.lookup.entry_prefix@,
                mode,
                res->Ok_0.candidates@,
            ),
{
    let lookup = query.lookup@;
    let candidates = res->Ok_0.candidates@;
    let models = candidate_models(candidates);
    let items = offered(entries@, lookup, mode);
    let ranks = candidate_ranks(items);
    let order = lemma_sort_has_an_order(items, ranks, models);
    let at = lemma_places_of_the_offered(entries@, lookup, mode);
    let places = Seq::new(order.len(), |i: int| at[order[i] as int]);
    assert(models.len() == candidates.len());
    assert(models.len() == order.len());
    assert(entries@.len() == entries.len());
    assert(items.len() <= usize::MAX) by {
        lemma_increasing_length(at, entries@.len() as int);
    }
    assert forall|i: int| 0 <= i < places.len() implies {
        &&& 0 <= #[trigger] places[i] < entries@.len()
        &&& completes(entries@[places[i]], lookup.entry_prefix, mode)
        &&& is_completion_to(candidates[i], entries@[places[i]], lookup.raw_dir_prefix)
    } by {
        let x = order[i] as int;
        assert(at[x] == places[i]);
        assert(models[i] == items[x]);
        assert(models[i] == candidates[i]@);
    }
    assert forall|i: int, j: int| 0 <= i < j < places.len() implies #[trigger] places[i]
        != #[trigger] places[j] && belongs_before(
        candidates[i],
        candidates[j],
        places[i],
        places[j],
    ) by {
        let x = order[i] as int;
        let y = order[j] as int;
        assert(comes_before(ranks, x, y));
        assert(models[i] == items[x] && models[j] == items[y]);
        assert(models[i] == candidates[i]@ && models[j] == candidates[j]@);
        lemma_text_order(ranks[x].folded, ranks[y].folded);
        lemma_text_order(ranks[y].folded, ranks[x].folded);
        lemma_text_le_total(ranks[x].folded, ranks[y].folded);
        if x < y {
            assert(at[x] < at[y]);
        } else {
            assert(at[y] < at[x]);
        }
    }
    assert forall|k: int|
        0 <= k < entries@.len() && completes(#[trigger] entries@[k], lookup.entry_prefix, mode) implies
        places.contains(k) by {
        let x = choose|x: int| 0 <= x < at.len() && at[x] == k;
        assert(order.contains(x as usize));
        let i = choose|i: int| 0 <= i < order.len() && order[i] == x as usize;
        assert(places[i] == k);
    }
    assert(are_places_of(
        places,
        entries@,
        lookup.raw_dir_prefix,
        lookup.entry_prefix,
        mode,
        candidates,
    ));
}

/// Rising places below a bound are no more than the bound.
proof fn lemma_increasing_length(places: Seq<int>, bound: int)
    requires
        bound >= 0,
        forall|i: int| 0 <= i < places.len() ==> 0 <= #[trigger] places[i] < bound,
        forall|i: int, j: int|
            0 <= i < j < places.len() ==> #[trigger] places[i] < #[trigger] places[j],
    ensures
        places.len() <= bound,
    decreases places.len(),
{
    if places.len() > 0 {
        let front = places.drop_last();
        assert forall|i: int| 0 <= i < front.len() implies 0 <= #[trigger] front[i]
            < places.last() by {
            assert(places[i] < places[places.len() - 1]);
        }
        lemma_increasing_length(front, places.last());
    }
}

/// A directory that is none, or that is missing, closed or oddly named, has no candidates; any
/// other failure to read it is told.
pub proof fn unreadable_directories_have_no_candidates(
    query: CompletionQuery,
    mode: PathCompletionMode,
    listing: &Listing,
    res: Result<CompletionSet, CompletionError>,
)
    requires
        call_ensures(collect_candidates, (query, mode, listing), res),
        !(*listing is Entries),
    ensures
        ({
            let told = listing is Failed && listing->failure == ReadFailure::Other;
            &&& !told ==> res is Ok && res->Ok_0.candidates@.len() == 0
                && res->Ok_0.seed_input@ == query.seed_input@
            &&& told ==> res == Err::<CompletionSet, CompletionError>(
                CompletionError::Unreadable {
                    dir: query.lookup.search_dir,
                    detail: listing->detail,
                },
            )
        }),
{
}

// ---------------------------------------------------------------------------------------------
// The common prefix
// ---------------------------------------------------------------------------------------------

/// Whether a text begins another.
pub open spec fn begins(start: Seq<char>, text: Seq<char>) -> bool {
    start.len() <= text.len() && forall|i: int|
        0 <= i < start.len() ==> #[trigger] start[i] == text[i]
}

/// Whether a text begins those of all candidates.
pub open spec fn begins_all(start: Seq<char>, candidates: Seq<CompletionCandidate>) -> bool {
    forall|i: int|
        0 <= i < candidates.len() ==> begins(start, (#[trigger] candidates[i]).replacement@)
}

proof fn lemma_shared_start(a: Seq<char>, b: Seq<char>)
    ensures
        shared_length(a, b) <= a.len(),
        begins(shared(a, b), a),
        begins(shared(a, b), b),
        forall|p: Seq<char>| #[trigger]
            begins(p, a) && begins(p, b) ==> begins(p, shared(a, b)),
    decreases a.len(),
{
    if a.len() > 0 && b.len() > 0 && a[0] == b[0] {
        let c = a.drop_first();
        let d = b.drop_first();
        lemma_shared_start(c, d);
        let n = shared_length(a, b) as int;
        assert forall|i: int| 0 <= i < n implies a[i] == b[i] by {
            if i > 0 {
                assert(shared(c, d)[i - 1] == d[i - 1]);
                assert(shared(c, d)[i - 1] == c[i - 1]);
            }
        }
        assert(shared(c, d).len() <= d.len());
        assert forall|p: Seq<char>| #[trigger] begins(p, a) && begins(p, b) implies begins(
            p,
            shared(a, b),
        ) by {
            if p.len() > 0 {
                let q = p.drop_first();
                assert(begins(q, c)) by {
                    assert forall|i: int| 0 <= i < q.len() implies #[trigger] q[i] == c[i] by {
                        assert(p[i + 1] == a[i + 1]);
                    }
                }
                assert(begins(q, d)) by {
                    assert forall|i: int| 0 <= i < q.len() implies #[trigger] q[i] == d[i] by {
                        assert(p[i + 1] == b[i + 1]);
                    }
                }
                assert(begins(q, shared(c, d)));
            }
        }
    } else {
        assert forall|p: Seq<char>| #[trigger] begins(p, a) && begins(p, b) implies begins(
            p,
            shared(a, b),
        ) by {
            if p.len() > 0 {
                assert(p[0] == a[0]);
                assert(p[0] == b[0]);
            }
        }
    }
}

/// What two texts share begins both, and all that begins both begins it.
pub proof fn shared_starts_are_the_longest(lhs: &str, rhs: &str, prefix: String)
    requires
        call_ensures(shared_prefix, (lhs, rhs), prefix),
    ensures
        begins(prefix@, lhs@),
        begins(prefix@, rhs@),
        forall|p: Seq<char>| #[trigger]
            begins(p, lhs@) && begins(p, rhs@) ==> begins(p, prefix@),
{
    lemma_shared_start(lhs@, rhs@);
}

pub proof fn lemma_shared_by_all(candidates: Seq<CompletionCandidate>)
    requires
        candidates.len() > 0,
    ensures
        begins_all(shared_by_all(candidate_models(candidates)), candidates),
        forall|p: Seq<char>| #[trigger]
            begins_all(p, candidates) ==> begins(
                p,
                shared_by_all(candidate_models(candidates)),
            ),
    decreases candidates.len(),
{
    let models = candidate_models(candidates);
    let all = shared_by_all(models);
    if candidates.len() == 1 {
        assert(models[0] == candidates[0]@);
        assert forall|p: Seq<char>| #[trigger] begins_all(p, candidates) implies begins(p, all) by {
            assert(begins(p, candidates[0].replacement@));
        }
    } else {
        let front = candidates.drop_last();
        let last = candidates.last().replacement@;
        assert(candidate_models(front) =~= models.drop_last());
        lemma_shared_by_all(front);
        let some = shared_by_all(models.drop_last());
        lemma_shared_start(some, last);
        assert forall|i: int| 0 <= i < candidates.len() implies begins(
            all,
            (#[trigger] candidates[i]).replacement@,
        ) by {
            if i < front.len() {
                assert(front[i] == candidates[i]);
                assert(begins(some, front[i].replacement@));
            }
        }
        assert forall|p: Seq<char>| #[trigger] begins_all(p, candidates) implies begins(p, all) by {
            assert forall|i: int| 0 <= i < front.len() implies begins(
                p,
                (#[trigger] front[i]).replacement@,
            ) by {
                assert(front[i] == candidates[i]);
            }
            assert(begins_all(p, front));
            assert(begins(p, candidates[candidates.len() - 1].replacement@));
        }
    }
}

/// Whether a text is the longest that begins those of all candidates.
pub open spec fn is_longest_start(
    start: Seq<char>,
    candidates: Seq<CompletionCandidate>,
) -> bool {
    &&& begins_all(start, candidates)
    &&& forall|p: Seq<char>| #[trigger] begins_all(p, candidates) ==> begins(p, start)
}

/// The common prefix is the longest text that begins those of all candidates, and is told just
/// where there are candidates and it is longer than what is typed.
pub proof fn common_prefixes_are_the_longest(set: &CompletionSet, res: Option<String>)
    requires
        call_ensures(CompletionSet::common_prefix, (set,), res),
    ensures
        set.candidates@.len() == 0 ==> res is None,
        set.candidates@.len() > 0 ==> exists|start: Seq<char>|
            {
                &&& #[trigger] is_longest_start(start, set.candidates@)
                &&& res is Some <==> encode_utf8(start).len() > encode_utf8(
                    set.seed_input@,
                ).len()
                &&& res is Some ==> res->0@ == start
            },
{
    if set.candidates@.len() > 0 {
        lemma_shared_by_all(set.candidates@);
        let start = shared_by_all(candidate_models(set.candidates@));
        assert(is_longest_start(start, set.candidates@));
    }
}

// ---------------------------------------------------------------------------------------------
// Stepping through candidates
// ---------------------------------------------------------------------------------------------

/// A step selects the next candidate in its direction, around the ends, and changes nothing else.
pub proof fn steps_select_the_next_candidate(
    state: &mut CompletionState,
    direction: CompletionDirection,
)
    requires
        old(state).selected < old(state).candidates@.len(),
        call_ensures(CompletionState::step, (state, direction), ()),
    ensures
        ({
            let selected = old(state).selected as int;
            let total = old(state).candidates@.len() as int;
            let next = final(state).selected;
            let forward = direction == CompletionDirection::Forward;
            &&& forward && selected + 1 < total ==> next == selected + 1
            &&& forward && selected + 1 == total ==> next == 0
            &&& !forward && selected > 0 ==> next == selected - 1
            &&& !forward && selected == 0 ==> next == total - 1
            &&& final(state)@.candidates == old(state)@.candidates
            &&& final(state)@.seed_input == old(state)@.seed_input
            &&& final(state)@.field == old(state)@.field
        }),
{
    assert(old(state).candidates@.len() == old(state).candidates.len());
}

/// A step belongs to the completions of a field just where the field is theirs, there are
/// candidates, and the text is what was typed or that of the selected one.
pub proof fn steps_belong_where_the_text_is_known(
    state: &CompletionState,
    field: FormField,
    input: &str,
    res: bool,
)
    requires
        call_ensures(CompletionState::can_continue, (state, field, input), res),
        state.candidates@.len() > 0 ==> state.selected < state.candidates@.len(),
    ensures
        res <==> field == state.field && state.candidates@.len() > 0 && (input@
            == state.seed_input@ || input@ == state.candidates@[state.selected as int].replacement@),
{
}

/// The text of a step is that of the selected candidate.
pub proof fn the_selected_candidate_is_the_text(state: &CompletionState, text: &str)
    requires
        call_ensures(CompletionState::current_replacement, (state,), text),
        state.selected < state.candidates@.len(),
    ensures
        text@ == state.candidates@[state.selected as int].replacement@,
{
}

// ---------------------------------------------------------------------------------------------
// What is shown of candidates
// ---------------------------------------------------------------------------------------------

/// Eight candidates are shown at most, as many as there are up to that. The selected one stands
/// behind four of them, or nearer to an end where there are fewer in front of it or behind it.
pub proof fn windows_are_eight_around_the_selected(
    total: usize,
    selected: Option<usize>,
    window: (usize, usize),
)
    requires
        call_ensures(completion_window, (total, selected), window),
        selected is Some ==> selected->0 < total,
    ensures
        total <= 8 ==> window.0 == 0 && window.1 == total,
        total > 8 ==> window.1 == window.0 + 8 && window.1 <= total,
        total > 8 && (selected is None || selected->0 <= 4) ==> window.0 == 0,
        total > 8 && selected is Some && 4 <= selected->0 <= total - 4 ==> window.0
            == selected->0 - 4,
        total > 8 && selected is Some && selected->0 >= total - 4 ==> window.1 == total,
{
}

/// What is shown are the candidates of the window, in their order, the selected one marked at its
/// place, with how many there are in all.
pub proof fn previews_show_the_window(
    candidates: &Vec<CompletionCandidate>,
    selected: Option<usize>,
    window: (usize, usize),
    preview: CompletionPreview,
)
    requires
        selected is Some ==> selected->0 < candidates@.len(),
        candidates@.len() <= usize::MAX,
        call_ensures(completion_window, (candidates@.len() as usize, selected), window),
        call_ensures(preview_candidates, (candidates, selected), preview),
    ensures
        preview.start_index == window.0,
        preview.candidates@.len() == window.1 - window.0,
        preview.total_matches == candidates@.len(),
        forall|i: int|
            0 <= i < preview.candidates@.len() ==> (#[trigger] preview.candidates@[i])@
                == candidates@[window.0 + i]@,
        selected is None ==> preview.selected is None,
        selected is Some ==> preview.selected is Some && preview.selected->0 + window.0
            == selected->0,
{
    let models = candidate_models(candidates@);
    assert(candidate_models(preview.candidates@) == models.subrange(
        window.0 as int,
        window.1 as int,
    ));
    assert(candidate_models(preview.candidates@).len() == preview.candidates@.len());
    assert forall|i: int| 0 <= i < preview.candidates@.len() implies (
    #[trigger] preview.candidates@[i])@ == candidates@[window.0 + i]@ by {
        assert(candidate_models(preview.candidates@)[i] == models[window.0 + i]);
    }
}

} // verus!
