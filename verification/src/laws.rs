//! What holds of the library as a whole.
pub mod completion;
pub mod form;
pub mod keys;
pub mod list;
pub mod paths;
pub mod screens;
pub mod session;
pub mod texts;
pub mod told;

use crate::app::{
    collected, confirms, declines, expands, quits, AppModel, KeyEffect, SubmitResult,
};
use crate::completion_state::{lemma_step_counts_on, place_after, steps_undo_each_other};
use crate::downloads_view::{
    download_rank, download_ranks, is_shown, keeps, kept, lemma_kept_length, plain_view,
    DialogModel, DownloadsViewModel,
};
use crate::engine::{
    is_registration_of, reading_ids, snapshot_of, snapshots_of, SnapshotModel, TorrentReading,
    TorrentRegistration, TorrentSnapshot,
};
use crate::errors::{PathError, QueueError, SourceError};
use crate::form::{
    field_completes, mode_of, other_field, CompletionDirection, FocusArea, FormField, Key,
    KeyCode, Screen,
};
use crate::order::{
    comes_before, is_stable_order, is_stable_sort, lemma_one_order_of_the_same,
    lemma_sort_has_an_order, picked, stable_sort_is_unique, Rank,
};
use crate::path_completion::{
    candidate_for, candidate_ranks, has_absolute_cwd, is_offered, lemma_first_byte, lookup_for,
    lower_byte, offered, past_last_slash, resolve_user_path, resolved, shared, shared_by_all,
    shared_length, spells_torrent, stands_for_itself, starts_at_home, CandidateModel, DirEntry,
    Listing, LookupModel, PathCompletionMode, UserEnvironment,
};
use crate::paths::{
    absolute, extension_of, final_component, goes_to_a_drive, past_last_dot, path_bytes,
};
use crate::preview::{preview_of, window_shows_the_selected};
use crate::text::{
    begins_with_lowered, is_white_space, lower_code, trimmed, trimming_is_idempotent,
};
use crate::torrent::{
    completes_locally, looks_like_magnet, looks_like_url, name_from_source, parsed, source_text,
    SourceModel, TorrentSource,
};
use std::path::PathBuf;
use vstd::prelude::*;
use vstd::utf8::{
    decode_utf8, decode_utf8_encode_utf8, decode_utf8_split, encode_scalar, encode_utf8,
    encode_utf8_decode_utf8, encode_utf8_valid_utf8, is_ascii_chars, is_ascii_chars_encode_utf8,
    is_char_boundary_iff_not_is_continuation_byte, valid_utf8,
};

verus! {

// ---------------------------------------------------------------------------------------------
// Typed paths
// ---------------------------------------------------------------------------------------------

/// White space around a typed path does not change the place that it stands for.
pub proof fn paths_ignore_surrounding_space(input: Seq<char>, env: UserEnvironment)
    ensures
        resolved(trimmed(input), env) == resolved(input, env),
{
    trimming_is_idempotent(input);
}

/// An absolute path stands for itself, whatever the environment.
pub proof fn absolute_paths_stand_for_themselves(input: Seq<char>, env: UserEnvironment)
    requires
        stands_for_itself(trimmed(input)),
    ensures
        resolved(input, env) == Ok::<Seq<u8>, PathError>(encode_utf8(trimmed(input))),
{
    lemma_first_byte(trimmed(input));
}

/// What a typed path stands for is an absolute path, or one that goes to a drive, where the current
/// directory is an absolute path.
pub proof fn resolved_paths_are_settled(input: &str, env: &UserEnvironment, path: PathBuf)
    requires
        has_absolute_cwd(*env),
        call_ensures(resolve_user_path, (input, env), Ok(path)),
    ensures
        absolute(path_bytes(path)) || goes_to_a_drive(path_bytes(path)),
{
}

/// The text of a resolved path stands for the same place, whatever the environment has become, as
/// long as the path is text that does not end in white space. One that goes to a drive without
/// being absolute needs a current directory again.
pub proof fn resolving_again_changes_nothing(
    input: &str,
    env: &UserEnvironment,
    path: PathBuf,
    text: Seq<char>,
    later: UserEnvironment,
)
    requires
        has_absolute_cwd(*env),
        call_ensures(resolve_user_path, (input, env), Ok(path)),
        valid_utf8(path_bytes(path)),
        text == decode_utf8(path_bytes(path)),
        !is_white_space(text.last()),
        absolute(path_bytes(path)) || later.cwd is Ok,
    ensures
        resolved(text, later) == Ok::<Seq<u8>, PathError>(path_bytes(path)),
{
    let bytes = path_bytes(path);
    resolved_paths_are_settled(input, env, path);
    decode_utf8_encode_utf8(bytes);
    if text.len() == 0 {
        assert(encode_utf8(text).len() == 0);
    }
    lemma_first_byte(text);
    assert(!is_white_space(text.first()));
    assert(trimmed(text) == text);
}

/// A tilde stands for the home directory.
pub proof fn tilde_is_the_home_directory(input: Seq<char>, env: UserEnvironment)
    requires
        trimmed(input) == seq!['~'],
        env.home is Ok,
        absolute(encode_utf8(env.home->Ok_0@)),
    ensures
        resolved(input, env) == Ok::<Seq<u8>, PathError>(encode_utf8(env.home->Ok_0@)),
{
}

/// A path that starts at the home directory stands for no place while none is known.
pub proof fn home_is_needed_for_a_tilde(input: Seq<char>, env: UserEnvironment)
    requires
        starts_at_home(trimmed(input)),
        env.home is Err,
    ensures
        resolved(input, env) is Err,
{
}

// ---------------------------------------------------------------------------------------------
// Completion
// ---------------------------------------------------------------------------------------------

/// The two parts of a split text make the text; the first is empty or ends with a slash, and the
/// second holds none.
pub proof fn split_parts_make_the_text(input: Seq<char>)
    ensures
        0 <= past_last_slash(input) <= input.len(),
        input.take(past_last_slash(input)) + input.skip(past_last_slash(input)) == input,
        past_last_slash(input) > 0 ==> input[past_last_slash(input) - 1] == '/',
        !input.skip(past_last_slash(input)).contains('/'),
    decreases input.len(),
{
    if input.len() > 0 && input.last() != '/' {
        split_parts_make_the_text(input.drop_last());
        let k = past_last_slash(input);
        assert forall|i: int| k <= i < input.len() implies input[i] != '/' by {
            if i < input.len() - 1 {
                assert(input.drop_last().skip(k)[i - k] == input[i]);
                assert(input.drop_last().skip(k).contains(input[i]));
            }
        }
    }
    assert(input.take(past_last_slash(input)) + input.skip(past_last_slash(input)) =~= input);
}

/// What leads to the listed directory, and what the names there begin with, continue what is
/// typed.
pub proof fn lookups_continue_what_is_typed(
    input: Seq<char>,
    env: UserEnvironment,
    lookup: LookupModel,
)
    requires
        lookup_for(input, env) == Ok::<LookupModel, PathError>(lookup),
    ensures
        input.is_prefix_of(lookup.raw_dir_prefix + lookup.entry_prefix),
        input.len() > 0 && input != seq!['~'] ==> lookup.raw_dir_prefix + lookup.entry_prefix
            == input,
{
    split_parts_make_the_text(input);
    reveal_strlit("~/");
    if input == seq!['~'] {
        assert((lookup.raw_dir_prefix + lookup.entry_prefix)[0] == '~');
    }
    assert(input =~= (lookup.raw_dir_prefix + lookup.entry_prefix).subrange(
        0,
        input.len() as int,
    ));
}

/// Whether a candidate is offered for an entry of a listing.
pub open spec fn stands_for_an_entry(
    candidate: CandidateModel,
    entries: Seq<DirEntry>,
    lookup: LookupModel,
    mode: PathCompletionMode,
) -> bool {
    exists|k: int|
        0 <= k < entries.len() && is_offered(#[trigger] entries[k], lookup, mode) && candidate
            == candidate_for(entries[k], lookup)
}

proof fn lemma_offered_for_an_entry(
    entries: Seq<DirEntry>,
    lookup: LookupModel,
    mode: PathCompletionMode,
    i: int,
)
    requires
        0 <= i < offered(entries, lookup, mode).len(),
    ensures
        stands_for_an_entry(offered(entries, lookup, mode)[i], entries, lookup, mode),
    decreases entries.len(),
{
    let before = offered(entries.drop_last(), lookup, mode);
    if i < before.len() {
        lemma_offered_for_an_entry(entries.drop_last(), lookup, mode, i);
        let k = choose|k: int|
            0 <= k < entries.drop_last().len() && is_offered(
                #[trigger] entries.drop_last()[k],
                lookup,
                mode,
            ) && before[i] == candidate_for(entries.drop_last()[k], lookup);
        assert(entries[k] == entries.drop_last()[k]);
    } else {
        assert(entries[entries.len() - 1] == entries.last());
    }
}

proof fn lemma_entry_has_a_candidate(
    entries: Seq<DirEntry>,
    lookup: LookupModel,
    mode: PathCompletionMode,
    k: int,
)
    requires
        0 <= k < entries.len(),
        is_offered(entries[k], lookup, mode),
    ensures
        offered(entries, lookup, mode).contains(candidate_for(entries[k], lookup)),
    decreases entries.len(),
{
    let before = offered(entries.drop_last(), lookup, mode);
    let all = offered(entries, lookup, mode);
    if k < entries.len() - 1 {
        assert(entries.drop_last()[k] == entries[k]);
        lemma_entry_has_a_candidate(entries.drop_last(), lookup, mode, k);
        let i = choose|i: int|
            0 <= i < before.len() && before[i] == candidate_for(entries[k], lookup);
        assert(all[i] == before[i]);
    } else {
        assert(all[before.len() as int] == candidate_for(entries[k], lookup));
    }
}

proof fn lemma_offered_length(
    entries: Seq<DirEntry>,
    lookup: LookupModel,
    mode: PathCompletionMode,
)
    ensures
        offered(entries, lookup, mode).len() <= entries.len(),
    decreases entries.len(),
{
    if entries.len() > 0 {
        lemma_offered_length(entries.drop_last(), lookup, mode);
    }
}

/// The candidates of a listing are those of its entries that are offered, all of them and no
/// others.
pub proof fn candidates_are_the_offered_entries(
    entries: Vec<DirEntry>,
    lookup: LookupModel,
    mode: PathCompletionMode,
    candidates: Seq<CandidateModel>,
)
    requires
        collected(lookup, mode, Listing::Entries(entries), candidates),
    ensures
        forall|k: int|
            0 <= k < entries@.len() && is_offered(#[trigger] entries@[k], lookup, mode)
                ==> candidates.contains(candidate_for(entries@[k], lookup)),
        forall|i: int|
            0 <= i < candidates.len() ==> stands_for_an_entry(
                #[trigger] candidates[i],
                entries@,
                lookup,
                mode,
            ),
{
    let items = offered(entries@, lookup, mode);
    let order = choose|order: Seq<usize>| #[trigger]
        is_stable_order(candidate_ranks(items), order) && candidates == picked(items, order);
    lemma_offered_length(entries@, lookup, mode);
    assert(entries@.len() == entries.len());
    assert forall|k: int|
        0 <= k < entries@.len() && is_offered(#[trigger] entries@[k], lookup, mode) implies
        candidates.contains(candidate_for(entries@[k], lookup)) by {
        lemma_entry_has_a_candidate(entries@, lookup, mode, k);
        let i = choose|i: int|
            0 <= i < items.len() && items[i] == candidate_for(entries@[k], lookup);
        assert(order.contains(i as usize));
        let a = choose|a: int| 0 <= a < order.len() && order[a] == i as usize;
        assert(candidates[a] == items[i]);
    }
    assert forall|i: int| 0 <= i < candidates.len() implies stands_for_an_entry(
        #[trigger] candidates[i],
        entries@,
        lookup,
        mode,
    ) by {
        lemma_offered_for_an_entry(entries@, lookup, mode, order[i] as int);
    }
}

/// What an entry completes a text to continues the text.
proof fn lemma_candidate_continues(
    input: Seq<char>,
    entry: DirEntry,
    lookup: LookupModel,
    mode: PathCompletionMode,
)
    requires
        input.is_prefix_of(lookup.raw_dir_prefix + lookup.entry_prefix),
        is_offered(entry, lookup, mode),
    ensures
        input.is_prefix_of(candidate_for(entry, lookup).replacement),
{
    let raw = lookup.raw_dir_prefix;
    let name = entry.name->0@;
    let rest = name.skip(lookup.entry_prefix.len() as int);
    let tail = if entry.is_dir {
        rest.push('/')
    } else {
        rest
    };
    let typed = raw + lookup.entry_prefix;
    assert(name =~= lookup.entry_prefix + rest);
    assert(candidate_for(entry, lookup).replacement =~= typed + tail);
    assert(typed.subrange(0, input.len() as int) =~= (typed + tail).subrange(
        0,
        input.len() as int,
    ));
}

/// Every candidate continues what is typed.
pub proof fn candidates_continue_what_is_typed(
    input: Seq<char>,
    env: UserEnvironment,
    lookup: LookupModel,
    mode: PathCompletionMode,
    listing: Listing,
    candidates: Seq<CandidateModel>,
)
    requires
        lookup_for(input, env) == Ok::<LookupModel, PathError>(lookup),
        collected(lookup, mode, listing, candidates),
    ensures
        forall|i: int|
            0 <= i < candidates.len() ==> input.is_prefix_of(
                (#[trigger] candidates[i]).replacement,
            ),
{
    lookups_continue_what_is_typed(input, env, lookup);
    if let Listing::Entries(entries) = listing {
        candidates_are_the_offered_entries(entries, lookup, mode, candidates);
        assert forall|i: int| 0 <= i < candidates.len() implies input.is_prefix_of(
            (#[trigger] candidates[i]).replacement,
        ) by {
            assert(stands_for_an_entry(candidates[i], entries@, lookup, mode));
            let k = choose|k: int|
                0 <= k < entries@.len() && is_offered(#[trigger] entries@[k], lookup, mode)
                    && candidates[i] == candidate_for(entries@[k], lookup);
            lemma_candidate_continues(input, entries@[k], lookup, mode);
        }
    }
}

/// Directories stand in front of files.
pub proof fn directories_come_first(
    lookup: LookupModel,
    mode: PathCompletionMode,
    listing: Listing,
    candidates: Seq<CandidateModel>,
)
    requires
        collected(lookup, mode, listing, candidates),
    ensures
        forall|i: int, j: int|
            0 <= i < j < candidates.len() && (#[trigger] candidates[j]).is_dir ==> (
            #[trigger] candidates[i]).is_dir,
{
    if let Listing::Entries(entries) = listing {
        let items = offered(entries@, lookup, mode);
        let order = choose|order: Seq<usize>| #[trigger]
            is_stable_order(candidate_ranks(items), order) && candidates == picked(items, order);
        assert forall|i: int, j: int|
            0 <= i < j < candidates.len() && (#[trigger] candidates[j]).is_dir implies (
        #[trigger] candidates[i]).is_dir by {
            assert(comes_before(candidate_ranks(items), order[i] as int, order[j] as int));
        }
    }
}

/// Only directories are offered where a directory is completed.
pub proof fn only_directories_complete_a_directory(
    lookup: LookupModel,
    listing: Listing,
    candidates: Seq<CandidateModel>,
)
    requires
        collected(lookup, PathCompletionMode::Directory, listing, candidates),
    ensures
        forall|i: int| 0 <= i < candidates.len() ==> (#[trigger] candidates[i]).is_dir,
{
    let mode = PathCompletionMode::Directory;
    if let Listing::Entries(entries) = listing {
        candidates_are_the_offered_entries(entries, lookup, mode, candidates);
        assert forall|i: int| 0 <= i < candidates.len() implies (#[trigger] candidates[i]).is_dir by {
            assert(stands_for_an_entry(candidates[i], entries@, lookup, mode));
        }
    }
}

/// Where the candidates for a directory stand among those for a torrent file, before either are
/// sorted: in the same order, and at all the places of directories.
proof fn lemma_directories_among_the_offered(
    entries: Seq<DirEntry>,
    lookup: LookupModel,
) -> (places: Seq<int>)
    ensures
        ({
            let dirs = offered(entries, lookup, PathCompletionMode::Directory);
            let all = offered(entries, lookup, PathCompletionMode::TorrentFile);
            &&& places.len() == dirs.len()
            &&& forall|i: int|
                0 <= i < places.len() ==> 0 <= #[trigger] places[i] < all.len() && dirs[i]
                    == all[places[i]] && all[places[i]].is_dir
            &&& forall|i: int, j: int|
                0 <= i < j < places.len() ==> #[trigger] places[i] < #[trigger] places[j]
            &&& forall|k: int|
                0 <= k < all.len() && (#[trigger] all[k]).is_dir ==> places.contains(k)
        }),
    decreases entries.len(),
{
    if entries.len() == 0 {
        Seq::empty()
    } else {
        let front = entries.drop_last();
        let earlier = lemma_directories_among_the_offered(front, lookup);
        let before = offered(front, lookup, PathCompletionMode::TorrentFile);
        let all = offered(entries, lookup, PathCompletionMode::TorrentFile);
        let last = entries.last();
        if is_offered(last, lookup, PathCompletionMode::Directory) {
            let places = earlier.push(before.len() as int);
            assert forall|k: int|
                0 <= k < all.len() && (#[trigger] all[k]).is_dir implies places.contains(k) by {
                if k < before.len() {
                    assert(before[k].is_dir);
                    let i = choose|i: int| 0 <= i < earlier.len() && earlier[i] == k;
                    assert(places[i] == k);
                } else {
                    assert(places[earlier.len() as int] == k);
                }
            }
            places
        } else {
            assert forall|k: int|
                0 <= k < all.len() && (#[trigger] all[k]).is_dir implies earlier.contains(k) by {
                assert(k < before.len());
                assert(before[k].is_dir);
            }
            earlier
        }
    }
}

/// How many candidates in front are directories, where all directories stand in front.
proof fn lemma_leading_directories(candidates: Seq<CandidateModel>) -> (count: int)
    requires
        forall|i: int, j: int|
            0 <= i < j < candidates.len() && (#[trigger] candidates[j]).is_dir ==> (
            #[trigger] candidates[i]).is_dir,
    ensures
        0 <= count <= candidates.len(),
        forall|i: int|
            0 <= i < candidates.len() ==> ((#[trigger] candidates[i]).is_dir <==> i < count),
    decreases candidates.len(),
{
    if candidates.len() == 0 {
        0
    } else if candidates.last().is_dir {
        assert(candidates[candidates.len() - 1].is_dir);
        candidates.len() as int
    } else {
        let front = candidates.drop_last();
        assert forall|i: int, j: int|
            0 <= i < j < front.len() && (#[trigger] front[j]).is_dir implies (
        #[trigger] front[i]).is_dir by {
            assert(candidates[j].is_dir);
            assert(candidates[i].is_dir);
        }
        let count = lemma_leading_directories(front);
        assert forall|i: int| 0 <= i < candidates.len() implies ((#[trigger] candidates[i]).is_dir
            <==> i < count) by {
            if i < front.len() {
                assert(front[i].is_dir <==> i < count);
            }
        }
        count
    }
}

/// The candidates for a directory are those directories that lead the candidates for a torrent
/// file, in the same order.
pub proof fn directories_lead_the_torrent_candidates(
    entries: Vec<DirEntry>,
    lookup: LookupModel,
    dirs: Seq<CandidateModel>,
    all: Seq<CandidateModel>,
)
    requires
        collected(lookup, PathCompletionMode::Directory, Listing::Entries(entries), dirs),
        collected(lookup, PathCompletionMode::TorrentFile, Listing::Entries(entries), all),
    ensures
        dirs.len() <= all.len(),
        all.take(dirs.len() as int) == dirs,
        forall|i: int| 0 <= i < all.len() ==> ((#[trigger] all[i]).is_dir <==> i < dirs.len()),
{
    let mode = PathCompletionMode::TorrentFile;
    let dir_items = offered(entries@, lookup, PathCompletionMode::Directory);
    let items = offered(entries@, lookup, mode);
    let dir_ranks = candidate_ranks(dir_items);
    let all_ranks = candidate_ranks(items);
    let dir_order = lemma_sort_has_an_order(dir_items, dir_ranks, dirs);
    let order = lemma_sort_has_an_order(items, all_ranks, all);
    let places = lemma_directories_among_the_offered(entries@, lookup);
    lemma_offered_length(entries@, lookup, mode);
    lemma_offered_length(entries@, lookup, PathCompletionMode::Directory);
    assert(entries@.len() == entries.len());
    directories_come_first(lookup, mode, Listing::Entries(entries), all);
    let count = lemma_leading_directories(all);
    let a = Seq::new(dirs.len(), |i: int| places[dir_order[i] as int]);
    let b = Seq::new(count as nat, |i: int| order[i] as int);
    assert forall|i: int, j: int| 0 <= i < j < a.len() implies comes_before(
        all_ranks,
        #[trigger] a[i],
        #[trigger] a[j],
    ) by {
        let x = dir_order[i] as int;
        let y = dir_order[j] as int;
        assert(comes_before(dir_ranks, x, y));
        assert(dir_ranks[x] == all_ranks[places[x]]);
        assert(dir_ranks[y] == all_ranks[places[y]]);
        if x < y {
            assert(places[x] < places[y]);
        } else {
            assert(places[y] < places[x]);
        }
    }
    assert forall|i: int, j: int| 0 <= i < j < b.len() implies comes_before(
        all_ranks,
        #[trigger] b[i],
        #[trigger] b[j],
    ) by {
        assert(comes_before(all_ranks, order[i] as int, order[j] as int));
    }
    assert forall|x: int| #[trigger] a.contains(x) <==> b.contains(x) by {
        if a.contains(x) {
            let i = choose|i: int| 0 <= i < a.len() && a[i] == x;
            assert(items[places[dir_order[i] as int]].is_dir);
            assert(order.contains(x as usize));
            let n = choose|n: int| 0 <= n < order.len() && order[n] == x as usize;
            assert(all[n] == items[x]);
            assert(b[n] == x);
        }
        if b.contains(x) {
            let n = choose|n: int| 0 <= n < b.len() && b[n] == x;
            assert(all[n].is_dir);
            assert(items[x].is_dir);
            assert(places.contains(x));
            let k = choose|k: int| 0 <= k < places.len() && places[k] == x;
            assert(dir_order.contains(k as usize));
            let i = choose|i: int| 0 <= i < dir_order.len() && dir_order[i] == k as usize;
            assert(a[i] == x);
        }
    }
    lemma_one_order_of_the_same(all_ranks, a, b);
    assert(dirs.len() == count);
    assert forall|i: int| 0 <= i < dirs.len() implies all[i] == dirs[i] by {
        assert(a[i] == b[i]);
        assert(dirs[i] == dir_items[dir_order[i] as int]);
        assert(all[i] == items[order[i] as int]);
    }
    assert(all.take(dirs.len() as int) =~= dirs);
}

/// Whether an entry is named by the final component of its path, as the entries of a directory
/// are.
pub open spec fn is_named_by_its_path(entry: DirEntry) -> bool {
    entry.name matches Some(name) ==> final_component(path_bytes(entry.path)) == Some(
        encode_utf8(name@),
    )
}

/// Whether a text ends with `.torrent`, in letters of either case.
pub open spec fn ends_as_a_torrent(text: Seq<char>) -> bool {
    text.len() >= 8 && begins_with_lowered(text.skip(text.len() - 8), ".torrent"@)
}

proof fn lemma_last_dot(name: Seq<u8>)
    ensures
        0 <= past_last_dot(name) <= name.len(),
        past_last_dot(name) > 0 ==> name[past_last_dot(name) - 1] == 46,
    decreases name.len(),
{
    if name.len() > 0 && name.last() != 46 {
        lemma_last_dot(name.drop_last());
    }
}

/// Bytes that are all ASCII are the code points of the text that they spell.
proof fn lemma_ascii_text(bytes: Seq<u8>)
    requires
        forall|i: int| 0 <= i < bytes.len() ==> #[trigger] bytes[i] < 128,
    ensures
        decode_utf8(bytes) == Seq::new(bytes.len(), |i: int| bytes[i] as char),
{
    let chars = Seq::new(bytes.len(), |i: int| bytes[i] as char);
    assert(is_ascii_chars(chars));
    is_ascii_chars_encode_utf8(chars);
    assert forall|i: int| 0 <= i < bytes.len() implies encode_utf8(chars)[i] == bytes[i] by {
        assert(chars[i] as u8 == bytes[i]);
    }
    assert(encode_utf8(chars) =~= bytes);
    encode_utf8_decode_utf8(chars);
}

/// A file name with the extension `torrent` ends with it.
proof fn lemma_extension_ends_the_name(name: Seq<char>)
    requires
        extension_of(encode_utf8(name)) is Some,
        spells_torrent(extension_of(encode_utf8(name))->0),
    ensures
        ends_as_a_torrent(name),
{
    let bytes = encode_utf8(name);
    let ending = extension_of(bytes)->0;
    let lowered = Seq::new(ending.len(), |i: int| lower_byte(ending[i]));
    reveal_strlit("torrent");
    reveal_strlit(".torrent");
    is_ascii_chars_encode_utf8("torrent"@);
    lemma_last_dot(bytes);
    assert(lowered.len() == 7);
    let from = bytes.len() - 8;
    assert(from == past_last_dot(bytes) - 1);
    let tail = bytes.subrange(from, bytes.len() as int);
    assert forall|i: int| 0 <= i < 8 implies #[trigger] tail[i] < 128 && lower_code(
        tail[i] as char,
    ) == ".torrent"@[i] as u32 by {
        if i > 0 {
            assert(tail[i] == ending[i - 1]);
            assert(lowered[i - 1] == encode_utf8("torrent"@)[i - 1]);
            assert("torrent"@[i - 1] == ".torrent"@[i]);
        } else {
            assert(tail[0] == 46);
        }
    }
    encode_utf8_valid_utf8(name);
    encode_utf8_decode_utf8(name);
    is_char_boundary_iff_not_is_continuation_byte(bytes, from);
    assert(tail[0] == bytes[from]);
    decode_utf8_split(bytes, from);
    lemma_ascii_text(tail);
    let front = decode_utf8(bytes.subrange(0, from));
    assert(name =~= front + decode_utf8(tail));
    assert(name.skip(name.len() - 8) =~= decode_utf8(tail));
}

/// The text of a file's candidate ends with `.torrent`, in letters of either case, and a slash ends
/// the text of a directory's candidate and of no other.
pub proof fn candidates_end_by_their_kind(
    entries: Vec<DirEntry>,
    lookup: LookupModel,
    mode: PathCompletionMode,
    candidates: Seq<CandidateModel>,
)
    requires
        forall|k: int| 0 <= k < entries@.len() ==> is_named_by_its_path(#[trigger] entries@[k]),
        collected(lookup, mode, Listing::Entries(entries), candidates),
    ensures
        forall|i: int|
            0 <= i < candidates.len() ==> {
                let candidate = #[trigger] candidates[i];
                &&& candidate.replacement.len() > 0
                &&& candidate.is_dir <==> candidate.replacement.last() == '/'
                &&& !candidate.is_dir ==> ends_as_a_torrent(candidate.replacement)
            },
{
    candidates_are_the_offered_entries(entries, lookup, mode, candidates);
    assert forall|i: int| 0 <= i < candidates.len() implies {
        let candidate = #[trigger] candidates[i];
        &&& candidate.replacement.len() > 0
        &&& candidate.is_dir <==> candidate.replacement.last() == '/'
        &&& !candidate.is_dir ==> ends_as_a_torrent(candidate.replacement)
    } by {
        assert(stands_for_an_entry(candidates[i], entries@, lookup, mode));
        let k = choose|k: int|
            0 <= k < entries@.len() && is_offered(#[trigger] entries@[k], lookup, mode)
                && candidates[i] == candidate_for(entries@[k], lookup);
        let entry = entries@[k];
        assert(is_named_by_its_path(entry));
        if !entry.is_dir {
            let name = entry.name->0@;
            let text = candidates[i].replacement;
            lemma_extension_ends_the_name(name);
            assert(text.skip(text.len() - 8) =~= name.skip(name.len() - 8));
            reveal_strlit(".torrent");
            assert(lower_code(name.skip(name.len() - 8)[7]) == ".torrent"@[7] as u32);
            assert(text.last() == name.skip(name.len() - 8)[7]);
        }
    }
}

/// Completing an empty field browses from the root, whatever the environment.
pub proof fn empty_fields_browse_from_the_root(
    app: AppModel,
    direction: CompletionDirection,
    env: UserEnvironment,
)
    requires
        trimmed(app.text_in(app.form_field)).len() == 0,
        !app.steps_on(),
    ensures
        app.after_completing(direction, env) == (
            app,
            KeyEffect::Complete {
                field: app.form_field,
                direction,
                seed_input: trimmed(app.text_in(app.form_field)),
                lookup: LookupModel {
                    search_dir: encode_utf8("/"@),
                    raw_dir_prefix: "/"@,
                    entry_prefix: Seq::empty(),
                },
            },
        ),
{
    trimming_is_idempotent(app.text_in(app.form_field));
    reveal_strlit("magnet:");
    reveal_strlit("http://");
    reveal_strlit("https://");
}

// ---------------------------------------------------------------------------------------------
// The common prefix
// ---------------------------------------------------------------------------------------------

/// What two texts share begins both, and whatever begins both begins what they share.
pub proof fn shared_is_the_longest_common_start(a: Seq<char>, b: Seq<char>)
    ensures
        shared(a, b).is_prefix_of(a),
        shared(a, b).is_prefix_of(b),
        forall|p: Seq<char>| #[trigger]
            p.is_prefix_of(a) && p.is_prefix_of(b) ==> p.is_prefix_of(shared(a, b)),
{
    lemma_shared(a, b);
    let n = shared_length(a, b) as int;
    assert(shared(a, b) =~= a.subrange(0, n));
    assert(shared(a, b) =~= b.subrange(0, n));
    assert forall|p: Seq<char>| #[trigger]
        p.is_prefix_of(a) && p.is_prefix_of(b) implies p.is_prefix_of(shared(a, b)) by {
        if p.len() > n {
            assert(a.subrange(0, p.len() as int)[n] == a[n]);
            assert(b.subrange(0, p.len() as int)[n] == b[n]);
        } else {
            assert(shared(a, b).subrange(0, p.len() as int) =~= a.subrange(0, p.len() as int));
        }
    }
}

proof fn lemma_shared(a: Seq<char>, b: Seq<char>)
    ensures
        shared_length(a, b) <= a.len(),
        shared_length(a, b) <= b.len(),
        forall|i: int| 0 <= i < shared_length(a, b) ==> a[i] == b[i],
        shared_length(a, b) < a.len() && shared_length(a, b) < b.len() ==> a[shared_length(
            a,
            b,
        ) as int] != b[shared_length(a, b) as int],
    decreases a.len(),
{
    if a.len() > 0 && b.len() > 0 && a[0] == b[0] {
        lemma_shared(a.drop_first(), b.drop_first());
        assert forall|i: int| 0 <= i < shared_length(a, b) implies a[i] == b[i] by {
            if i > 0 {
                assert(a.drop_first()[i - 1] == b.drop_first()[i - 1]);
            }
        }
    }
}

proof fn lemma_prefix_transitive(a: Seq<char>, b: Seq<char>, c: Seq<char>)
    requires
        a.is_prefix_of(b),
        b.is_prefix_of(c),
    ensures
        a.is_prefix_of(c),
{
    assert(b.subrange(0, a.len() as int) =~= c.subrange(0, a.len() as int));
}

/// What candidates share begins the text of each of them, and whatever begins the text of each of
/// them begins what they share.
pub proof fn common_prefix_is_the_longest(candidates: Seq<CandidateModel>)
    requires
        candidates.len() > 0,
    ensures
        forall|i: int|
            0 <= i < candidates.len() ==> shared_by_all(candidates).is_prefix_of(
                (#[trigger] candidates[i]).replacement,
            ),
        forall|p: Seq<char>|
            (forall|i: int|
                0 <= i < candidates.len() ==> p.is_prefix_of((#[trigger] candidates[i]).replacement))
                ==> #[trigger] p.is_prefix_of(shared_by_all(candidates)),
    decreases candidates.len(),
{
    let all = shared_by_all(candidates);
    if candidates.len() == 1 {
        assert(all.is_prefix_of(all)) by {
            assert(all.subrange(0, all.len() as int) =~= all);
        }
        assert forall|p: Seq<char>|
            (forall|i: int|
                0 <= i < candidates.len() ==> p.is_prefix_of(
                    (#[trigger] candidates[i]).replacement,
                )) implies #[trigger] p.is_prefix_of(all) by {
            assert(p.is_prefix_of(candidates[0].replacement));
        }
    } else {
        let front = candidates.drop_last();
        let last = candidates.last().replacement;
        common_prefix_is_the_longest(front);
        shared_is_the_longest_common_start(shared_by_all(front), last);
        assert forall|i: int| 0 <= i < candidates.len() implies all.is_prefix_of(
            (#[trigger] candidates[i]).replacement,
        ) by {
            if i < front.len() {
                assert(front[i] == candidates[i]);
                lemma_prefix_transitive(all, shared_by_all(front), front[i].replacement);
            }
        }
        assert forall|p: Seq<char>|
            (forall|i: int|
                0 <= i < candidates.len() ==> p.is_prefix_of(
                    (#[trigger] candidates[i]).replacement,
                )) implies #[trigger] p.is_prefix_of(all) by {
            assert forall|i: int| 0 <= i < front.len() implies p.is_prefix_of(
                (#[trigger] front[i]).replacement,
            ) by {
                assert(front[i] == candidates[i]);
            }
            assert(p.is_prefix_of(candidates[candidates.len() - 1].replacement));
            assert(p.is_prefix_of(shared_by_all(front)));
        }
    }
}

proof fn lemma_encoding_of_a_sum(a: Seq<char>, b: Seq<char>)
    ensures
        encode_utf8(a + b) == encode_utf8(a) + encode_utf8(b),
    decreases a.len(),
{
    if a.len() == 0 {
        assert(a + b =~= b);
        assert(encode_utf8(a) + encode_utf8(b) =~= encode_utf8(b));
    } else {
        lemma_encoding_of_a_sum(a.drop_first(), b);
        assert((a + b).drop_first() =~= a.drop_first() + b);
        assert(encode_utf8(a + b) =~= encode_utf8(a) + encode_utf8(b));
    }
}

/// A text that continues another is longer in bytes just where it is another text.
proof fn lemma_continuing_is_longer(a: Seq<char>, b: Seq<char>)
    requires
        a.is_prefix_of(b),
    ensures
        encode_utf8(b).len() > encode_utf8(a).len() <==> a != b,
{
    let rest = b.skip(a.len() as int);
    assert(b =~= a + rest);
    lemma_encoding_of_a_sum(a, rest);
    if rest.len() > 0 {
        assert(encode_utf8(rest) == encode_scalar(rest[0] as u32) + encode_utf8(
            rest.drop_first(),
        ));
    } else {
        assert(a =~= b);
    }
}

/// Candidates that were collected for a text are expanded to what they share just where that is
/// more than the text, which it then continues.
pub proof fn expansion_continues_what_is_typed(
    input: Seq<char>,
    env: UserEnvironment,
    lookup: LookupModel,
    mode: PathCompletionMode,
    listing: Listing,
    candidates: Seq<CandidateModel>,
)
    requires
        lookup_for(input, env) == Ok::<LookupModel, PathError>(lookup),
        collected(lookup, mode, listing, candidates),
        candidates.len() > 1,
    ensures
        input.is_prefix_of(shared_by_all(candidates)),
        expands(input, candidates) <==> shared_by_all(candidates) != input,
{
    candidates_continue_what_is_typed(input, env, lookup, mode, listing, candidates);
    common_prefix_is_the_longest(candidates);
    lemma_continuing_is_longer(input, shared_by_all(candidates));
}

/// Completing a field never loses what is typed there: the field holds a text that continues it,
/// or the same text as before where nothing matches.
pub proof fn completing_continues_what_is_typed(
    app: AppModel,
    field: FormField,
    direction: CompletionDirection,
    env: UserEnvironment,
    lookup: LookupModel,
    listing: Listing,
    candidates: Seq<CandidateModel>,
)
    requires
        lookup_for(trimmed(app.text_in(field)), env) == Ok::<
            LookupModel,
            PathError,
        >(lookup),
        collected(lookup, mode_of(field), listing, candidates),
        candidates.len() <= usize::MAX,
    ensures
        ({
            let typed = trimmed(app.text_in(field));
            let after = app.after_candidates(field, direction, typed, candidates);
            if candidates.len() == 0 {
                after.text_in(field) == app.text_in(field)
            } else {
                typed.is_prefix_of(after.text_in(field))
            }
        }),
{
    let typed = trimmed(app.text_in(field));
    candidates_continue_what_is_typed(typed, env, lookup, mode_of(field), listing, candidates);
    if candidates.len() > 1 {
        expansion_continues_what_is_typed(
            typed,
            env,
            lookup,
            mode_of(field),
            listing,
            candidates,
        );
    }
}

/// Completing a field again steps on through the candidates, as long as the text that the last
/// step put there has no white space at its ends and is no URL and no magnet link.
pub proof fn completing_again_steps_on(
    app: AppModel,
    direction: CompletionDirection,
    next: CompletionDirection,
    seed: Seq<char>,
    candidates: Seq<CandidateModel>,
    env: UserEnvironment,
)
    requires
        0 < candidates.len() <= usize::MAX,
        !expands(seed, candidates),
        ({
            let text = app.after_candidates(
                app.form_field,
                direction,
                seed,
                candidates,
            ).text_in(app.form_field);
            &&& trimmed(text) == text
            &&& field_completes(app.form_field, text)
        }),
    ensures
        ({
            let after = app.after_candidates(app.form_field, direction, seed, candidates);
            after.after_completing(next, env) == (after.after_step(next), KeyEffect::Handled)
        }),
{
}

/// The state after a number of presses of the key that completes in a direction.
pub open spec fn after_presses(
    app: AppModel,
    presses: nat,
    direction: CompletionDirection,
    env: UserEnvironment,
) -> AppModel
    decreases presses,
{
    if presses == 0 {
        app
    } else {
        after_presses(app, (presses - 1) as nat, direction, env).after_completing(
            direction,
            env,
        ).0
    }
}

/// Pressing a key that completes cycles through the candidates, as long as none of their texts has
/// white space at its ends or is a URL or a magnet link: each press puts the next one in its
/// direction into the field, the first behind the last or the last behind the first.
pub proof fn completing_cycles_through_the_candidates(
    app: AppModel,
    presses: nat,
    direction: CompletionDirection,
    env: UserEnvironment,
)
    requires
        app.inv(),
        app.completion is Some,
        app.completion->0.field == app.form_field,
        app.completion->0.candidates.len() <= usize::MAX,
        app.text_in(app.form_field) == app.completion->0.replacement(),
        forall|i: int|
            0 <= i < app.completion->0.candidates.len() ==> {
                let text = (#[trigger] app.completion->0.candidates[i]).replacement;
                trimmed(text) == text && field_completes(app.form_field, text)
            },
    ensures
        ({
            let candidates = app.completion->0.candidates;
            let after = after_presses(app, presses, direction, env);
            let place = place_after(
                app.completion->0.selected,
                candidates.len(),
                presses,
                direction,
            );
            &&& after.form_field == app.form_field
            &&& after.text_in(app.form_field) == candidates[place].replacement
            &&& after.completion is Some
            &&& after.completion->0.field == app.form_field
            &&& after.completion->0.candidates == candidates
            &&& after.completion->0.selected == place
        }),
    decreases presses,
{
    let candidates = app.completion->0.candidates;
    let selected = app.completion->0.selected;
    if presses > 0 {
        let earlier = (presses - 1) as nat;
        completing_cycles_through_the_candidates(app, earlier, direction, env);
        lemma_step_counts_on(selected, candidates.len(), earlier, direction);
        let before = after_presses(app, earlier, direction, env);
        assert(before.steps_on());
        assert(after_presses(app, presses, direction, env) == before.after_step(direction));
    } else {
        lemma_step_counts_on(selected, candidates.len(), 0, direction);
    }
}

/// A step in one direction and one in the other put the first text into the field again, and
/// leave the same candidate selected.
pub proof fn stepping_back_restores_the_text(app: AppModel)
    requires
        app.inv(),
        app.completion is Some,
        app.completion->0.candidates.len() <= usize::MAX,
        app.text_in(app.form_field) == app.completion->0.replacement(),
    ensures
        ({
            let there = app.after_step(CompletionDirection::Forward);
            let back = there.after_step(CompletionDirection::Backward);
            &&& back.completion == app.completion
            &&& back.text_in(app.form_field) == app.text_in(app.form_field)
        }),
{
    steps_undo_each_other(app.completion->0);
}

/// The selected candidate is among those shown, at the place that is shown as selected.
pub proof fn preview_marks_the_selected(candidates: Seq<CandidateModel>, selected: usize)
    requires
        selected < candidates.len() <= usize::MAX,
    ensures
        ({
            let preview = preview_of(candidates, Some(selected));
            &&& preview.selected is Some
            &&& preview.selected->0 < preview.candidates.len()
            &&& preview.candidates[preview.selected->0 as int] == candidates[selected as int]
            &&& preview.start_index + preview.candidates.len() <= preview.total_matches
        }),
{
    window_shows_the_selected(candidates.len(), Some(selected));
}

// ---------------------------------------------------------------------------------------------
// Sources
// ---------------------------------------------------------------------------------------------

/// White space around a source does not count.
pub proof fn sources_ignore_surrounding_space(input: Seq<char>, env: UserEnvironment)
    ensures
        parsed(trimmed(input), env) == parsed(input, env),
        completes_locally(trimmed(input)) == completes_locally(input),
{
    trimming_is_idempotent(input);
}

/// Paths are completed for just those texts that are not taken as they stand: a magnet link or a
/// URL is a source without looking at a file, and anything else is a file or nothing.
pub proof fn links_are_not_completed(input: Seq<char>, env: UserEnvironment)
    ensures
        !completes_locally(input) <==> (parsed(input, env) is Ok && !(parsed(
            input,
            env,
        )->Ok_0 is LocalFile)),
{
    reveal_strlit("magnet:");
    reveal_strlit("http://");
    reveal_strlit("https://");
}

/// No text is both a magnet link and a URL.
pub proof fn links_are_of_one_kind(value: Seq<char>)
    ensures
        !(looks_like_magnet(value) && looks_like_url(value)),
{
    reveal_strlit("magnet:");
    reveal_strlit("http://");
    reveal_strlit("https://");
    if looks_like_magnet(value) && looks_like_url(value) {
        assert("magnet:"@[0] == 'm');
        assert("http://"@[0] == 'h');
        assert("https://"@[0] == 'h');
    }
}

/// A magnet link or a URL is shown as it was given, and what is shown names the same source.
pub proof fn links_are_shown_as_given(input: Seq<char>, env: UserEnvironment)
    requires
        !completes_locally(input),
    ensures
        parsed(input, env) is Ok,
        source_text(parsed(input, env)->Ok_0) == trimmed(input),
        parsed(source_text(parsed(input, env)->Ok_0), env) == parsed(input, env),
{
    links_are_not_completed(input, env);
    trimming_is_idempotent(input);
}

/// An absolute path to a file is shown as it was typed.
pub proof fn absolute_paths_are_shown_as_typed(
    input: &str,
    env: &UserEnvironment,
    res: Result<TorrentSource, SourceError>,
    text: String,
)
    requires
        completes_locally(input@),
        stands_for_itself(trimmed(input@)),
        call_ensures(TorrentSource::parse, (input, env), res),
        res is Ok ==> call_ensures(TorrentSource::display, (&res->Ok_0,), text),
    ensures
        res is Ok,
        text@ == trimmed(input@),
{
    encode_utf8_valid_utf8(trimmed(input@));
    encode_utf8_decode_utf8(trimmed(input@));
}

/// What is nothing but white space is no source.
pub proof fn empty_sources_are_refused(input: Seq<char>, env: UserEnvironment)
    requires
        trimmed(input).len() == 0,
    ensures
        parsed(input, env) == Err::<SourceModel, SourceError>(SourceError::Empty),
{
}

// ---------------------------------------------------------------------------------------------
// Downloads
// ---------------------------------------------------------------------------------------------

/// The downloads are listed by their numbers, one for every torrent that the session tells of.
pub proof fn downloads_are_listed_by_number(
    readings: Seq<TorrentReading>,
    registrations: Map<usize, TorrentRegistration>,
    downloads: Seq<SnapshotModel>,
)
    requires
        readings.len() <= usize::MAX,
        is_stable_sort(snapshots_of(readings, registrations), reading_ids(readings), downloads),
    ensures
        downloads.len() == readings.len(),
        forall|i: int, j: int|
            0 <= i < j < downloads.len() ==> (#[trigger] downloads[i]).id <= (
            #[trigger] downloads[j]).id,
        forall|k: int|
            0 <= k < readings.len() ==> downloads.contains(
                snapshot_of(#[trigger] readings[k], registrations),
            ),
{
    let items = snapshots_of(readings, registrations);
    let order = choose|order: Seq<usize>| #[trigger]
        is_stable_order(reading_ids(readings), order) && downloads == picked(items, order);
    assert forall|i: int, j: int| 0 <= i < j < downloads.len() implies (#[trigger] downloads[i]).id
        <= (#[trigger] downloads[j]).id by {
        assert(comes_before(reading_ids(readings), order[i] as int, order[j] as int));
    }
    assert forall|k: int| 0 <= k < readings.len() implies downloads.contains(
        snapshot_of(#[trigger] readings[k], registrations),
    ) by {
        assert(order.contains(k as usize));
        let a = choose|a: int| 0 <= a < order.len() && order[a] == k as usize;
        assert(downloads[a] == items[k]);
    }
}

/// A torrent that was queued is listed with the source and the output directory that it was
/// queued with, and by the name that it was queued under until it has a name of its own.
pub proof fn queued_torrents_are_listed_as_queued(
    reading: TorrentReading,
    registrations: Map<usize, TorrentRegistration>,
    source: SourceModel,
    output_dir: PathBuf,
    name: Option<String>,
)
    requires
        registrations.dom().contains(reading.id),
        is_registration_of(registrations[reading.id], source, output_dir, name),
    ensures
        snapshot_of(reading, registrations).source == source_text(source),
        snapshot_of(reading, registrations).output_dir == path_bytes(output_dir),
        reading.name is Some ==> snapshot_of(reading, registrations).name == reading.name->0@,
        reading.name is None && name is Some ==> snapshot_of(reading, registrations).name
            == name->0@,
        reading.name is None && name is None ==> snapshot_of(reading, registrations).name
            == name_from_source(source),
{
}

// ---------------------------------------------------------------------------------------------
// The interface
// ---------------------------------------------------------------------------------------------

/// F10, and Control with C, leave the interface from every state and change nothing else.
pub proof fn exit_keys_always_work(app: AppModel, key: Key, env: UserEnvironment)
    requires
        key.code == KeyCode::F(10) || (key.control && key.code == KeyCode::Char('c')),
    ensures
        app.after_key(key, env) == (AppModel { should_quit: true, ..app }, KeyEffect::Handled),
{
}

/// No other key leaves the interface, but for the one that says yes to the question whether to.
pub proof fn other_keys_do_not_exit(app: AppModel, key: Key, env: UserEnvironment)
    requires
        !quits(key),
        !(app.dialog == Some(DialogModel::ConfirmQuit) && confirms(key.code) && !app.help_open),
    ensures
        app.after_key(key, env).0.should_quit == app.should_quit,
{
}

/// Keys change neither the configuration nor the downloads, and keep the state valid.
pub proof fn keys_keep_the_state_valid(app: AppModel, key: Key, env: UserEnvironment)
    requires
        app.inv(),
        app.completion matches Some(completion) ==> completion.candidates.len() <= usize::MAX,
    ensures
        app.after_key(key, env).0.config == app.config,
        app.after_key(key, env).0.downloads == app.downloads,
        app.after_key(key, env).0.inv(),
{
}

/// While the menu has the focus, the texts of the form stay as they are.
pub proof fn menu_keys_leave_the_form(app: AppModel, key: Key, env: UserEnvironment)
    requires
        app.focus == FocusArea::Menu,
    ensures
        app.after_key(key, env).0.torrent_source == app.torrent_source,
        app.after_key(key, env).0.download_dir == app.download_dir,
        app.after_key(key, env).0.form_field == app.form_field,
        app.after_key(key, env).1 == KeyEffect::Handled,
{
}

/// Keys and pasted text change the text of no other field than the active one.
pub proof fn only_the_active_field_changes(
    app: AppModel,
    key: Key,
    pasted: Seq<char>,
    env: UserEnvironment,
)
    ensures
        app.after_key(key, env).0.text_in(other_field(app.form_field)) == app.text_in(
            other_field(app.form_field),
        ),
        app.after_paste(pasted).text_in(other_field(app.form_field)) == app.text_in(
            other_field(app.form_field),
        ),
{
}

/// Backspace takes back the character that was typed last.
pub proof fn backspace_undoes_typing(app: AppModel, c: char, env: UserEnvironment)
    requires
        app.focus == FocusArea::Content,
        app.screen == Screen::AddTorrent,
        !app.help_open,
        app.dialog is None,
    ensures
        ({
            let typed = app.after_key(
                Key { code: KeyCode::Char(c), control: false, alt: false },
                env,
            ).0;
            let back = typed.after_key(
                Key { code: KeyCode::Backspace, control: false, alt: false },
                env,
            ).0;
            back == (AppModel { completion: None, ..app })
        }),
{
    let text = app.text_in(app.form_field);
    assert(text.push(c).drop_last() =~= text);
}

/// A URL or a magnet link in the field of the source is never completed: the field stays as it is.
pub proof fn links_stay_as_typed(
    app: AppModel,
    direction: CompletionDirection,
    env: UserEnvironment,
)
    requires
        app.form_field == FormField::TorrentSource,
        !completes_locally(app.torrent_source),
    ensures
        app.after_completing(direction, env).0.torrent_source == app.torrent_source,
        app.after_completing(direction, env).1 == KeyEffect::Handled,
{
    sources_ignore_surrounding_space(app.torrent_source, env);
}

/// A torrent that was not queued leaves the form as it was, to be corrected.
pub proof fn failures_keep_the_form(
    app: AppModel,
    source: Seq<char>,
    dir: Seq<u8>,
    error: QueueError,
)
    ensures
        app.after_submit(source, dir, SubmitResult::Failed(error)) == (AppModel {
            status_line: app.after_submit(source, dir, SubmitResult::Failed(error)).status_line,
            ..app
        }),
{
}

/// The selection stays on its place while the downloads change, as far as as many are shown.
pub proof fn selection_survives_a_refresh(
    app: AppModel,
    downloads: Seq<TorrentSnapshot>,
)
    requires
        app.inv(),
        app.shown_count() > 0,
        kept(downloads, app.downloads_view.filter).len() >= app.shown_count(),
    ensures
        app.with_downloads(downloads).downloads_selected == app.downloads_selected,
{
}

// ---------------------------------------------------------------------------------------------
// Help
// ---------------------------------------------------------------------------------------------

/// F1 opens the help from every state and changes nothing else.
pub proof fn f1_opens_the_help(app: AppModel, key: Key, env: UserEnvironment)
    requires
        key.code == KeyCode::F(1),
    ensures
        app.after_key(key, env) == (AppModel { help_open: true, ..app }, KeyEffect::Handled),
{
}

/// While the help is open no key changes anything behind it: Esc and Enter close it, and the others
/// but for the exit keys leave it open.
pub proof fn the_open_help_takes_the_keys(app: AppModel, key: Key, env: UserEnvironment)
    requires
        app.help_open,
        !quits(key),
    ensures
        app.after_key(key, env) == (
            AppModel { help_open: key.code != KeyCode::Esc && key.code != KeyCode::Enter, ..app },
            KeyEffect::Handled,
        ),
{
}

// ---------------------------------------------------------------------------------------------
// The list of downloads as it is shown
// ---------------------------------------------------------------------------------------------

/// An empty filter keeps all downloads.
pub proof fn an_empty_filter_keeps_all(downloads: Seq<TorrentSnapshot>, filter: Seq<char>)
    requires
        filter.len() == 0,
    ensures
        kept(downloads, filter) == downloads,
    decreases downloads.len(),
{
    if downloads.len() > 0 {
        an_empty_filter_keeps_all(downloads.drop_last(), filter);
    }
    assert(kept(downloads, filter) =~= downloads);
}

/// A filter keeps the downloads with the names that it keeps, and no others.
pub proof fn filters_keep_what_they_match(
    downloads: Seq<TorrentSnapshot>,
    filter: Seq<char>,
    download: TorrentSnapshot,
)
    ensures
        kept(downloads, filter).contains(download) <==> downloads.contains(download) && keeps(
            filter,
            download.name@,
        ),
    decreases downloads.len(),
{
    let all = kept(downloads, filter);
    if downloads.len() > 0 {
        let front = downloads.drop_last();
        let earlier = kept(front, filter);
        filters_keep_what_they_match(front, filter, download);
        if all.contains(download) {
            let i = choose|i: int| 0 <= i < all.len() && all[i] == download;
            if i < earlier.len() {
                assert(earlier[i] == download);
                let k = choose|k: int| 0 <= k < front.len() && front[k] == download;
                assert(downloads[k] == download);
            } else {
                assert(downloads[downloads.len() - 1] == download);
            }
        }
        if downloads.contains(download) && keeps(filter, download.name@) {
            let k = choose|k: int| 0 <= k < downloads.len() && downloads[k] == download;
            if k < front.len() {
                assert(front[k] == download);
                let i = choose|i: int| 0 <= i < earlier.len() && earlier[i] == download;
                assert(all[i] == download);
            } else {
                assert(all[all.len() - 1] == download);
            }
        }
    }
}

/// There is one way only to show downloads.
pub proof fn what_is_shown_is_unique(
    downloads: Seq<TorrentSnapshot>,
    view: DownloadsViewModel,
    a: Seq<TorrentSnapshot>,
    b: Seq<TorrentSnapshot>,
)
    requires
        is_shown(downloads, view, a),
        is_shown(downloads, view, b),
    ensures
        a == b,
{
    let left = kept(downloads, view.filter);
    if view.reversed {
        stable_sort_is_unique(
            left,
            download_ranks(left, view.sort),
            a.reverse(),
            b.reverse(),
        );
        assert(a =~= a.reverse().reverse());
        assert(b =~= b.reverse().reverse());
    } else {
        stable_sort_is_unique(left, download_ranks(left, view.sort), a, b);
    }
}

/// The downloads that are shown are those that the filter keeps, as many of them.
pub proof fn shown_are_the_kept_ones(
    downloads: Seq<TorrentSnapshot>,
    view: DownloadsViewModel,
    shown: Seq<TorrentSnapshot>,
)
    requires
        downloads.len() <= usize::MAX,
        is_shown(downloads, view, shown),
    ensures
        shown.len() == kept(downloads, view.filter).len(),
        forall|download: TorrentSnapshot| #[trigger]
            shown.contains(download) <==> downloads.contains(download) && keeps(
                view.filter,
                download.name@,
            ),
{
    let left = kept(downloads, view.filter);
    let sorted = if view.reversed {
        shown.reverse()
    } else {
        shown
    };
    let order = lemma_sort_has_an_order(left, download_ranks(left, view.sort), sorted);
    assert(shown.reverse().len() == shown.len());
    lemma_kept_length(downloads, view.filter);
    assert forall|download: TorrentSnapshot| #[trigger]
        shown.contains(download) <==> left.contains(download) by {
        if shown.contains(download) {
            let i = choose|i: int| 0 <= i < shown.len() && shown[i] == download;
            let j: int = if view.reversed {
                shown.len() - 1 - i
            } else {
                i
            };
            assert(sorted[j] == download);
            assert(left[order[j] as int] == download);
        }
        if left.contains(download) {
            let i = choose|i: int| 0 <= i < left.len() && left[i] == download;
            assert(order.contains(i as usize));
            let a = choose|a: int| 0 <= a < order.len() && order[a] == i as usize;
            assert(sorted[a] == download);
            let j: int = if view.reversed {
                shown.len() - 1 - a
            } else {
                a
            };
            assert(shown[j] == download);
        }
    }
    assert forall|download: TorrentSnapshot| #[trigger]
        shown.contains(download) <==> downloads.contains(download) && keeps(
            view.filter,
            download.name@,
        ) by {
        filters_keep_what_they_match(downloads, view.filter, download);
    }
}

/// The downloads are shown in the order of the sort key, or in the opposite one where the order is
/// reversed.
pub proof fn shown_downloads_are_sorted(
    downloads: Seq<TorrentSnapshot>,
    view: DownloadsViewModel,
    shown: Seq<TorrentSnapshot>,
    i: int,
    j: int,
)
    requires
        is_shown(downloads, view, shown),
        0 <= i < j < shown.len(),
    ensures
        view.reversed ==> download_rank(shown[j], view.sort).le(
            download_rank(shown[i], view.sort),
        ),
        !view.reversed ==> download_rank(shown[i], view.sort).le(
            download_rank(shown[j], view.sort),
        ),
{
    let left = kept(downloads, view.filter);
    let all = download_ranks(left, view.sort);
    let sorted = if view.reversed {
        shown.reverse()
    } else {
        shown
    };
    let order = lemma_sort_has_an_order(left, all, sorted);
    assert(shown.reverse().len() == shown.len());
    let (a, b): (int, int) = if view.reversed {
        (shown.len() - 1 - j, shown.len() - 1 - i)
    } else {
        (i, j)
    };
    assert(sorted[a] == left[order[a] as int]);
    assert(sorted[b] == left[order[b] as int]);
    assert(comes_before(all, order[a] as int, order[b] as int));
    Rank::le_total(all[order[a] as int], all[order[b] as int]);
}

/// Reversing the order turns the list round.
pub proof fn reversing_turns_the_list_round(
    downloads: Seq<TorrentSnapshot>,
    view: DownloadsViewModel,
    shown: Seq<TorrentSnapshot>,
)
    requires
        is_shown(downloads, view, shown),
    ensures
        is_shown(
            downloads,
            DownloadsViewModel { reversed: !view.reversed, ..view },
            shown.reverse(),
        ),
{
    assert(shown.reverse().reverse() =~= shown);
}

/// Downloads that come by their numbers are shown as they come as long as nothing is changed.
pub proof fn the_plain_view_shows_downloads_as_they_come(downloads: Seq<TorrentSnapshot>)
    requires
        downloads.len() <= usize::MAX,
        forall|i: int, j: int|
            0 <= i < j < downloads.len() ==> (#[trigger] downloads[i]).id <= (
            #[trigger] downloads[j]).id,
    ensures
        is_shown(downloads, plain_view(), downloads),
{
    let view = plain_view();
    an_empty_filter_keeps_all(downloads, view.filter);
    let all = download_ranks(downloads, view.sort);
    let order = Seq::new(downloads.len(), |i: int| i as usize);
    assert forall|a: int, b: int| 0 <= a < b < order.len() implies comes_before(
        all,
        #[trigger] order[a] as int,
        #[trigger] order[b] as int,
    ) by {
        Rank::le_total(all[a], all[b]);
        assert(downloads[a].id <= downloads[b].id);
    }
    assert forall|i: usize| 0 <= i < downloads.len() implies #[trigger] order.contains(i) by {
        assert(order[i as int] == i);
    }
    assert(picked(downloads, order) =~= downloads);
    assert(is_stable_order(all, order));
}

// ---------------------------------------------------------------------------------------------
// Keys of the list of downloads
// ---------------------------------------------------------------------------------------------

/// Whether keys go to the list of downloads.
pub open spec fn list_has_the_keys(app: AppModel) -> bool {
    &&& app.focus == FocusArea::Content
    &&& app.screen == Screen::Downloads
    &&& !app.help_open
    &&& app.dialog is None
}

/// The key of a character.
pub open spec fn letter(c: char) -> Key {
    Key { code: KeyCode::Char(c), control: false, alt: false }
}

/// Reversing the order twice, or toggling the compact view twice, gives the state back.
pub proof fn toggling_twice_changes_nothing(app: AppModel, c: char, env: UserEnvironment)
    requires
        app.inv(),
        list_has_the_keys(app),
        c == 'r' || c == 'm',
    ensures
        app.after_key(letter(c), env).0.after_key(letter(c), env).0 == app,
{
    assert(app.after_key(letter(c), env).0.after_key(letter(c), env).0 =~= app);
}

/// A character that is pressed with Control or Alt changes nothing on the list of downloads, but
/// for the exit key.
pub proof fn modified_letters_mean_nothing_on_the_list(
    app: AppModel,
    c: char,
    control: bool,
    alt: bool,
    env: UserEnvironment,
)
    requires
        list_has_the_keys(app),
        control || alt,
        !quits(Key { code: KeyCode::Char(c), control, alt }),
    ensures
        app.after_key(Key { code: KeyCode::Char(c), control, alt }, env) == (
            app,
            KeyEffect::Handled,
        ),
{
}

/// Resetting the view shows all downloads again, in the plain way.
pub proof fn resetting_shows_all_downloads(app: AppModel, env: UserEnvironment)
    requires
        list_has_the_keys(app),
    ensures
        app.after_key(letter('x'), env).0.downloads_view == plain_view(),
        app.after_key(letter('x'), env).0.shown_count() == app.downloads.len(),
        app.after_key(letter('x'), env).0.downloads == app.downloads,
{
    an_empty_filter_keeps_all(app.downloads, plain_view().filter);
}

/// The filter is cleared only after a yes, and a no leaves everything as it is.
pub proof fn clearing_the_filter_needs_a_yes(app: AppModel, answer: Key, env: UserEnvironment)
    requires
        list_has_the_keys(app),
        !quits(answer),
    ensures
        ({
            let asked = app.after_key(letter('c'), env).0;
            let answered = asked.after_key(answer, env).0;
            &&& asked.downloads_view == app.downloads_view
            &&& confirms(answer.code) ==> answered == app.with_view(
                DownloadsViewModel { filter: Seq::empty(), ..app.downloads_view },
            )
            &&& declines(answer.code) ==> answered == app
            &&& !confirms(answer.code) ==> answered.downloads_view == app.downloads_view
        }),
{
    let answered = app.after_key(letter('c'), env).0.after_key(answer, env).0;
    if confirms(answer.code) {
        assert(answered =~= app.with_view(
            DownloadsViewModel { filter: Seq::empty(), ..app.downloads_view },
        ));
    } else if declines(answer.code) {
        assert(answered =~= app);
    }
}

/// The key `q` leaves the interface only after a yes, and a no leaves everything as it is.
pub proof fn quitting_needs_a_yes(app: AppModel, answer: Key, env: UserEnvironment)
    requires
        list_has_the_keys(app),
        !quits(answer),
    ensures
        ({
            let asked = app.after_key(letter('q'), env).0;
            let answered = asked.after_key(answer, env).0;
            &&& asked.should_quit == app.should_quit
            &&& confirms(answer.code) ==> answered == (AppModel { should_quit: true, ..app })
            &&& declines(answer.code) ==> answered == app
            &&& !confirms(answer.code) ==> answered.should_quit == app.should_quit
        }),
{
    let answered = app.after_key(letter('q'), env).0.after_key(answer, env).0;
    if confirms(answer.code) {
        assert(answered =~= (AppModel { should_quit: true, ..app }));
    } else if declines(answer.code) {
        assert(answered =~= app);
    }
}

/// Esc closes a dialog and leaves everything as it was before.
pub proof fn esc_leaves_a_dialog(
    app: AppModel,
    dialog: DialogModel,
    key: Key,
    env: UserEnvironment,
)
    requires
        app.dialog == Some(dialog),
        !app.help_open,
        key.code == KeyCode::Esc,
    ensures
        app.after_key(key, env) == (AppModel { dialog: None, ..app }, KeyEffect::Handled),
{
}

/// The state after the characters of a text were typed.
pub open spec fn after_typing(app: AppModel, text: Seq<char>, env: UserEnvironment) -> AppModel
    decreases text.len(),
{
    if text.len() == 0 {
        app
    } else {
        after_typing(app, text.drop_last(), env).after_key(letter(text.last()), env).0
    }
}

/// What is typed into the filter dialog goes behind what is there.
pub proof fn the_filter_dialog_takes_text(
    app: AppModel,
    draft: Seq<char>,
    text: Seq<char>,
    env: UserEnvironment,
)
    requires
        app.dialog == Some(DialogModel::Filter(draft)),
        !app.help_open,
    ensures
        after_typing(app, text, env) == app.with_dialog(Some(DialogModel::Filter(draft + text))),
    decreases text.len(),
{
    if text.len() > 0 {
        the_filter_dialog_takes_text(app, draft, text.drop_last(), env);
        assert((draft + text.drop_last()).push(text.last()) =~= draft + text);
    } else {
        assert(draft + text =~= draft);
    }
}

/// Enter in the filter dialog shows the downloads that the typed filter keeps.
pub proof fn the_typed_filter_is_applied(
    app: AppModel,
    filter: Seq<char>,
    key: Key,
    env: UserEnvironment,
)
    requires
        app.dialog == Some(DialogModel::Filter(filter)),
        !app.help_open,
        key.code == KeyCode::Enter,
    ensures
        app.after_key(key, env).0.dialog is None,
        app.after_key(key, env).0.downloads_view == (DownloadsViewModel {
            filter,
            ..app.downloads_view
        }),
        app.after_key(key, env).0.shown_count() == kept(app.downloads, filter).len(),
{
}

} // verus!
