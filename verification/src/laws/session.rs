//! What holds of torrent sources, of queueing them and of the torrents of a session.
use crate::engine::{
    optional_text, progress_fraction, reading_ids, snapshot_models, snapshot_of, snapshots_of,
    ManagedTorrent, QueueJob, StartFailure, TorrentEngine, TorrentReading, TorrentRegistration,
    TorrentSnapshot,
};
use crate::errors::{PathError, QueueError, SourceError, StartError};
use crate::laws::texts::{is_decimal, lemma_decimal_reads_back, number_read};
use crate::order::{comes_before, lemma_sort_has_an_order};
use crate::path_completion::{past_last_slash, resolve_user_path, UserEnvironment};
use crate::paths::{displayed, path_bytes};
use crate::text::{begins_with_lowered, decimal_text, lower_code, trimmed, trimming_is_idempotent};
use crate::torrent::{
    add_torrent_file, added_bytes, added_trackers, added_url, chosen_files, deferred_writes,
    file_label, file_pattern, has_initial_peers, ignores_trackers, is_http_url, is_magnet_link,
    limits_download, limits_upload, lists_only, looks_like_magnet, looks_like_url,
    output_folder, overwrites, preferred_id, sets_peer_options, sets_storage,
    sets_tracker_interval, starts_paused, sub_folder, AddStep, TorrentSource,
};
use librqbit::{AddTorrent, AddTorrentOptions};
use std::path::PathBuf;
use vstd::prelude::*;
use vstd::string::*;
use vstd::utf8::{decode_utf8, decode_utf8_encode_utf8, encode_utf8, valid_utf8};

verus! {

// ---------------------------------------------------------------------------------------------
// Kinds of sources
// ---------------------------------------------------------------------------------------------

/// Whether a character is a letter, given its lowercase and its capital form.
pub open spec fn is_letter_of(c: char, lower: char, capital: char) -> bool {
    c == lower || c == capital
}

/// Whether a text begins with `magnet:`, in letters of either case.
pub open spec fn begins_as_a_magnet_link(text: Seq<char>) -> bool {
    &&& text.len() >= 7
    &&& is_letter_of(text[0], 'm', 'M')
    &&& is_letter_of(text[1], 'a', 'A')
    &&& is_letter_of(text[2], 'g', 'G')
    &&& is_letter_of(text[3], 'n', 'N')
    &&& is_letter_of(text[4], 'e', 'E')
    &&& is_letter_of(text[5], 't', 'T')
    &&& text[6] == ':'
}

/// Whether a text begins with `http://` or `https://`, in letters of either case.
pub open spec fn begins_as_a_url(text: Seq<char>) -> bool {
    &&& text.len() >= 7
    &&& is_letter_of(text[0], 'h', 'H')
    &&& is_letter_of(text[1], 't', 'T')
    &&& is_letter_of(text[2], 't', 'T')
    &&& is_letter_of(text[3], 'p', 'P')
    &&& {
        ||| text[4] == ':' && text[5] == '/' && text[6] == '/'
        ||| text.len() >= 8 && is_letter_of(text[4], 's', 'S') && text[5] == ':' && text[6] == '/'
            && text[7] == '/'
    }
}

/// A text is a URL just where it begins with `http://` or `https://`, in letters of either case.
pub proof fn urls_are_known_by_their_scheme(value: &str, res: bool)
    requires
        call_ensures(is_http_url, (value,), res),
    ensures
        res <==> begins_as_a_url(value@),
{
    lemma_schemes(value@);
}

/// A text is a magnet link just where it begins with `magnet:`, in letters of either case.
pub proof fn magnet_links_are_known_by_their_scheme(value: &str, res: bool)
    requires
        call_ensures(is_magnet_link, (value,), res),
    ensures
        res <==> begins_as_a_magnet_link(value@),
{
    lemma_schemes(value@);
}

pub proof fn lemma_schemes(value: Seq<char>)
    ensures
        looks_like_url(value) <==> begins_as_a_url(value),
        looks_like_magnet(value) <==> begins_as_a_magnet_link(value),
{
    reveal_strlit("http://");
    reveal_strlit("https://");
    reveal_strlit("magnet:");
    let http = "http://"@;
    let https = "https://"@;
    let magnet = "magnet:"@;
    assert(http =~= seq!['h', 't', 't', 'p', ':', '/', '/']);
    assert(https =~= seq!['h', 't', 't', 'p', 's', ':', '/', '/']);
    assert(magnet =~= seq!['m', 'a', 'g', 'n', 'e', 't', ':']);
    lemma_begins_by_letters(value, http);
    lemma_begins_by_letters(value, https);
    lemma_begins_by_letters(value, magnet);
}

/// Whether a character is another one, or its capital where that one is a lowercase letter.
spec fn spells(c: char, wanted: char) -> bool {
    c == wanted || ('a' <= wanted <= 'z' && c as int == wanted as int - 32)
}

proof fn lemma_begins_by_letters(value: Seq<char>, wanted: Seq<char>)
    requires
        forall|i: int| 0 <= i < wanted.len() ==> !('A' <= #[trigger] wanted[i] <= 'Z'),
    ensures
        begins_with_lowered(value, wanted) <==> value.len() >= wanted.len() && forall|i: int|
            0 <= i < wanted.len() ==> spells(value[i], #[trigger] wanted[i]),
{
    if value.len() >= wanted.len() {
        assert forall|i: int| 0 <= i < wanted.len() implies (lower_code(value[i])
            == #[trigger] wanted[i] as u32 <==> spells(value[i], wanted[i])) by {
            lemma_spelling(value[i], wanted[i]);
        }
    }
}

proof fn lemma_spelling(c: char, wanted: char)
    requires
        !('A' <= wanted <= 'Z'),
    ensures
        lower_code(c) == wanted as u32 <==> spells(c, wanted),
{
}

/// A text names a magnet link or a URL by its scheme, as it stands; anything else names the file at
/// the place that it stands for as a typed path. White space around it does not count.
pub proof fn sources_are_known_by_their_text(
    input: &str,
    env: &UserEnvironment,
    res: Result<TorrentSource, SourceError>,
    place: Result<PathBuf, PathError>,
)
    requires
        call_ensures(TorrentSource::parse, (input, env), res),
        call_ensures(resolve_user_path, (input, env), place),
    ensures
        ({
            let text = trimmed(input@);
            if text.len() == 0 {
                res == Err::<TorrentSource, SourceError>(SourceError::Empty)
            } else if begins_as_a_magnet_link(text) {
                res is Ok && res->Ok_0 is Magnet && res->Ok_0->Magnet_0@ == text
            } else if begins_as_a_url(text) {
                res is Ok && res->Ok_0 is RemoteUrl && res->Ok_0->RemoteUrl_0@ == text
            } else {
                match place {
                    Ok(path) => res is Ok && res->Ok_0 is LocalFile && path_bytes(
                        res->Ok_0->LocalFile_0,
                    ) == path_bytes(path),
                    Err(error) => res == Err::<TorrentSource, SourceError>(
                        SourceError::Path(error),
                    ),
                }
            }
        }),
{
    trimming_is_idempotent(input@);
    lemma_schemes(trimmed(input@));
}

/// Paths are completed for all but links.
pub proof fn all_but_links_are_completed(input: &str, res: bool)
    requires
        call_ensures(TorrentSource::supports_local_completion, (input,), res),
    ensures
        res <==> !begins_as_a_magnet_link(trimmed(input@)) && !begins_as_a_url(trimmed(input@)),
{
    lemma_schemes(trimmed(input@));
}

/// A link is shown as it is, and a file by its path.
pub proof fn sources_are_shown_by_what_they_name(source: &TorrentSource, text: String)
    requires
        call_ensures(TorrentSource::display, (source,), text),
    ensures
        *source is RemoteUrl ==> text@ == source->RemoteUrl_0@,
        *source is Magnet ==> text@ == source->Magnet_0@,
        *source is LocalFile ==> text@ == displayed(path_bytes(source->LocalFile_0)),
        *source is LocalFile && valid_utf8(path_bytes(source->LocalFile_0)) ==> text@
            == decode_utf8(path_bytes(source->LocalFile_0)),
{
}

/// A link is added as it is, and a file is opened first.
pub proof fn links_are_added_and_files_are_opened(source: TorrentSource, step: AddStep)
    requires
        call_ensures(TorrentSource::into_add_torrent, (source,), step),
    ensures
        source is LocalFile ==> step == AddStep::Open(source->LocalFile_0),
        source is RemoteUrl ==> step is Ready && added_url(step->Ready_0) == Some(
            source->RemoteUrl_0@,
        ) && added_bytes(step->Ready_0) is None,
        source is Magnet ==> step is Ready && added_url(step->Ready_0) == Some(source->Magnet_0@)
            && added_bytes(step->Ready_0) is None,
{
}

proof fn lemma_last_part(url: Seq<char>, front: Seq<char>, last: Seq<char>)
    requires
        url == front.push('/') + last,
        !last.contains('/'),
    ensures
        url.skip(past_last_slash(url)) == last,
{
    lemma_slash_place(url, front, last);
    assert(url.skip((front.len() + 1) as int) =~= last);
}

proof fn lemma_slash_place(url: Seq<char>, front: Seq<char>, last: Seq<char>)
    requires
        url == front.push('/') + last,
        !last.contains('/'),
    ensures
        past_last_slash(url) == front.len() + 1,
    decreases last.len(),
{
    if last.len() > 0 {
        assert(url.last() == last.last());
        assert(last.contains(last.last()));
        assert(url.drop_last() =~= front.push('/') + last.drop_last());
        assert forall|c: char| last.drop_last().contains(c) implies last.contains(c) by {
            let i = choose|i: int| 0 <= i < last.drop_last().len() && last.drop_last()[i] == c;
            assert(last[i] == c);
        }
        lemma_slash_place(url.drop_last(), front, last.drop_last());
    } else {
        assert(url =~= front.push('/'));
    }
}

/// A torrent that is known by a URL alone is called by what stands behind the last slash, where
/// there is anything.
pub proof fn urls_name_their_torrent_behind_the_last_slash(
    source: &TorrentSource,
    name: String,
    front: Seq<char>,
    last: Seq<char>,
)
    requires
        call_ensures(TorrentSource::fallback_name, (source,), name),
        *source is RemoteUrl,
        source->RemoteUrl_0@ == front.push('/') + last,
        !last.contains('/'),
    ensures
        last.len() > 0 ==> name@ == last,
        last.len() == 0 ==> name@ == "remote-torrent"@,
{
    lemma_last_part(source->RemoteUrl_0@, front, last);
}

/// A torrent that is known by a file alone is called by the name of the file, and one that is known
/// by a magnet link alone has a name that stands for all of them.
pub proof fn files_and_magnet_links_name_their_torrent(
    source: &TorrentSource,
    name: String,
    path: &PathBuf,
    label: String,
)
    requires
        call_ensures(TorrentSource::fallback_name, (source,), name),
        call_ensures(file_label, (path,), label),
    ensures
        *source is LocalFile && source->LocalFile_0 == *path ==> name@ == label@,
        *source is Magnet ==> name@ == "magnet-download"@,
{
}

// ---------------------------------------------------------------------------------------------
// Queueing
// ---------------------------------------------------------------------------------------------

/// What a text names is queued for the output directory that is given, and a text that names
/// nothing is refused with the reason.
pub proof fn what_a_text_names_is_queued(
    input: &str,
    output_dir: &PathBuf,
    env: &UserEnvironment,
    res: Result<QueueJob, QueueError>,
    source: Result<TorrentSource, SourceError>,
)
    requires
        call_ensures(TorrentEngine::add_torrent_source, (input, output_dir, env), res),
        call_ensures(TorrentSource::parse, (input, env), source),
    ensures
        match source {
            Ok(source) => {
                &&& res is Ok
                &&& res->Ok_0.source@ == source@
                &&& res->Ok_0.output_dir == *output_dir
            },
            Err(error) => res == Err::<QueueJob, QueueError>(QueueError::Source(error)),
        },
{
}

/// Once the output directory is there, a link is added and a file is opened; where it could not be
/// created, that is told.
pub proof fn queueing_goes_on_once_the_directory_is_there(
    job: &QueueJob,
    created: Result<(), String>,
    res: Result<AddStep, QueueError>,
)
    requires
        call_ensures(QueueJob::directory_created, (job, created), res),
    ensures
        created is Err ==> res == Err::<AddStep, QueueError>(
            QueueError::OutputDirectory { dir: job.output_dir, detail: created->Err_0 },
        ),
        created is Ok ==> res is Ok,
        created is Ok && job.source is LocalFile ==> res->Ok_0 == AddStep::Open(
            job.source->LocalFile_0,
        ),
        created is Ok && job.source is RemoteUrl ==> res->Ok_0 is Ready && added_url(
            res->Ok_0->Ready_0,
        ) == Some(job.source->RemoteUrl_0@) && added_bytes(res->Ok_0->Ready_0) is None,
        created is Ok && job.source is Magnet ==> res->Ok_0 is Ready && added_url(
            res->Ok_0->Ready_0,
        ) == Some(job.source->Magnet_0@) && added_bytes(res->Ok_0->Ready_0) is None,
{
}

/// A torrent file that was read is added with its bytes, and one that could not be read is told.
pub proof fn files_are_added_with_their_bytes(
    path: &PathBuf,
    contents: Result<Vec<u8>, String>,
    res: Result<AddTorrent<'static>, QueueError>,
)
    requires
        call_ensures(add_torrent_file, (path, contents), res),
    ensures
        contents is Ok ==> res is Ok && added_bytes(res->Ok_0) == Some(contents->Ok_0@)
            && added_url(res->Ok_0) is None,
        contents is Err ==> res == Err::<AddTorrent<'static>, QueueError>(
            QueueError::Unreadable { path: *path, detail: contents->Err_0 },
        ),
{
}

/// A torrent is downloaded to its output directory, on top of what is there, at once and in full.
pub proof fn torrents_are_downloaded_at_once_and_in_full(job: &QueueJob, options: AddTorrentOptions)
    requires
        call_ensures(QueueJob::options, (job,), options),
    ensures
        overwrites(options),
        output_folder(options) is Some,
        valid_utf8(path_bytes(job.output_dir)) ==> encode_utf8(output_folder(options)->0)
            == path_bytes(job.output_dir),
        !starts_paused(options) && !lists_only(options) && !ignores_trackers(options),
        file_pattern(options) is None && chosen_files(options) is None && sub_folder(
            options,
        ) is None,
        !sets_peer_options(options) && !sets_tracker_interval(options) && !sets_storage(options),
        !limits_download(options) && !limits_upload(options) && !has_initial_peers(options),
        preferred_id(options) is None && deferred_writes(options) is None && added_trackers(
            options,
        ) is None,
{
    if valid_utf8(path_bytes(job.output_dir)) {
        decode_utf8_encode_utf8(path_bytes(job.output_dir));
    }
}

/// A torrent that the session manages is told by its number and remembered with how its source is
/// shown, its output directory, and the name that the session has for it or else that of its
/// source; what was remembered before stays.
pub proof fn queued_torrents_are_remembered(
    job: QueueJob,
    engine: &mut TorrentEngine,
    torrent: ManagedTorrent,
    res: Result<usize, QueueError>,
    shown: String,
    fallback: String,
)
    requires
        call_ensures(QueueJob::finish, (job, engine, Ok(Some(torrent))), res),
        call_ensures(TorrentSource::display, (&job.source,), shown),
        call_ensures(TorrentSource::fallback_name, (&job.source,), fallback),
    ensures
        res == Ok::<usize, QueueError>(torrent.id),
        final(engine)@.dom().contains(torrent.id),
        forall|id: usize|
            old(engine)@.dom().contains(id) ==> #[trigger] final(engine)@.dom().contains(id)
                && final(engine)@[id] == old(engine)@[id],
        forall|id: usize| #[trigger]
            final(engine)@.dom().contains(id) ==> old(engine)@.dom().contains(id) || id
                == torrent.id,
        !old(engine)@.dom().contains(torrent.id) ==> {
            let known = final(engine)@[torrent.id];
            &&& known.source@ == shown@
            &&& known.output_dir == job.output_dir
            &&& torrent.name is Some ==> known.submitted_name@ == torrent.name->0@
            &&& torrent.name is None ==> known.submitted_name@ == fallback@
        },
{
}

/// Where the session refuses a torrent, or does not manage it, that is told and nothing is
/// remembered.
pub proof fn refused_torrents_are_not_remembered(
    job: QueueJob,
    engine: &mut TorrentEngine,
    added: Result<Option<ManagedTorrent>, String>,
    res: Result<usize, QueueError>,
    shown: String,
)
    requires
        call_ensures(QueueJob::finish, (job, engine, added), res),
        call_ensures(TorrentSource::display, (&job.source,), shown),
        added is Err || added->Ok_0 is None,
    ensures
        final(engine)@ == old(engine)@,
        added is Ok ==> res == Err::<usize, QueueError>(QueueError::NoHandle),
        added is Err ==> res is Err && res->Err_0 is Refused && res->Err_0->Refused_source@
            == shown@ && res->Err_0->Refused_detail == added->Err_0,
{
}

/// What is remembered first of a torrent stays, and nothing else is touched.
pub proof fn the_first_registration_stays(
    engine: &mut TorrentEngine,
    id: usize,
    registration: TorrentRegistration,
    other: usize,
)
    requires
        call_ensures(TorrentEngine::register, (engine, id, registration), ()),
    ensures
        final(engine)@.dom().contains(id),
        old(engine)@.dom().contains(id) ==> final(engine)@[id] == old(engine)@[id],
        !old(engine)@.dom().contains(id) ==> final(engine)@[id] == registration,
        other != id ==> (final(engine)@.dom().contains(other) <==> old(engine)@.dom().contains(
            other,
        )),
        other != id && old(engine)@.dom().contains(other) ==> final(engine)@[other] == old(
            engine,
        )@[other],
{
}

/// A session starts with nothing remembered, and one that does not start is told with its directory
/// and the reason.
pub proof fn sessions_start_empty(
    dir: &PathBuf,
    prepared: Result<(), StartFailure>,
    res: Result<TorrentEngine, StartError>,
    id: usize,
)
    requires
        call_ensures(TorrentEngine::new, (dir, prepared), res),
    ensures
        prepared is Ok <==> res is Ok,
        res is Ok ==> !res->Ok_0@.dom().contains(id),
        prepared matches Err(StartFailure::Directory(detail)) ==> res == Err::<
            TorrentEngine,
            StartError,
        >(StartError::DownloadDirectory { dir: *dir, detail }),
        prepared matches Err(StartFailure::Session(detail)) ==> res == Err::<
            TorrentEngine,
            StartError,
        >(StartError::Session { dir: *dir, detail }),
{
}

// ---------------------------------------------------------------------------------------------
// Listing
// ---------------------------------------------------------------------------------------------

/// Whether two texts that may be missing are the same.
pub open spec fn is_same_text(a: Option<String>, b: Option<String>) -> bool {
    (a is Some <==> b is Some) && (a is Some ==> a->0@ == b->0@)
}

/// Whether a download carries what the session tells of a torrent.
pub open spec fn carries(download: TorrentSnapshot, reading: TorrentReading) -> bool {
    &&& download.id == reading.id
    &&& download.state@ == reading.state@
    &&& download.progress_bytes == reading.progress_bytes
    &&& download.total_bytes == reading.total_bytes
    &&& download.uploaded_bytes == reading.uploaded_bytes
    &&& download.finished == reading.finished
    &&& is_same_text(download.error, reading.error)
    &&& reading.name is Some ==> download.name@ == reading.name->0@
    &&& reading.live is None ==> {
        &&& download.download_speed is None
        &&& download.upload_speed is None
        &&& download.live_peers == 0
        &&& download.connecting_peers == 0
        &&& download.seen_peers == 0
    }
    &&& reading.live is Some ==> {
        let live = reading.live->0;
        &&& download.download_speed is Some
        &&& download.download_speed->0@ == live.download_speed@
        &&& download.upload_speed is Some
        &&& download.upload_speed->0@ == live.upload_speed@
        &&& download.live_peers == live.live_peers
        &&& download.connecting_peers == live.connecting_peers
        &&& download.seen_peers == live.seen_peers
    }
}

/// Whether a download carries what is remembered of it, or what stands for that where nothing is.
pub open spec fn recalls(
    download: TorrentSnapshot,
    reading: TorrentReading,
    registrations: Map<usize, TorrentRegistration>,
) -> bool {
    if registrations.dom().contains(reading.id) {
        let known = registrations[reading.id];
        &&& download.source@ == known.source@
        &&& path_bytes(download.output_dir) == path_bytes(known.output_dir)
        &&& reading.name is None ==> download.name@ == known.submitted_name@
    } else {
        &&& download.source@ == "<unknown>"@
        &&& path_bytes(download.output_dir) == encode_utf8("<session-default>"@)
        &&& reading.name is None ==> exists|number: Seq<char>|
            is_decimal(number) && #[trigger] number_read(number) == reading.id && download.name@
                == "torrent-"@ + number
    }
}

/// A download carries what the session tells of the torrent and what is remembered of it.
pub proof fn snapshots_carry_what_the_session_tells(
    engine: &TorrentEngine,
    reading: &TorrentReading,
    download: TorrentSnapshot,
)
    requires
        call_ensures(TorrentEngine::snapshot, (engine, reading), download),
    ensures
        carries(download, *reading),
        recalls(download, *reading, engine@),
{
    lemma_carried(download, *reading, engine@);
}

proof fn lemma_carried(
    download: TorrentSnapshot,
    reading: TorrentReading,
    registrations: Map<usize, TorrentRegistration>,
)
    requires
        download@ == snapshot_of(reading, registrations),
    ensures
        carries(download, reading),
        recalls(download, reading, registrations),
{
    let number = decimal_text(reading.id as nat);
    lemma_decimal_reads_back(reading.id as nat);
    assert(is_decimal(number) && number_read(number) == reading.id);
    assert(download@.error == optional_text(reading.error));
    assert(download@.error == optional_text(download.error));
}

/// `places` are those of the torrents that the downloads tell of, one for each download, by their
/// numbers.
pub open spec fn are_readings_of(
    places: Seq<int>,
    readings: Seq<TorrentReading>,
    registrations: Map<usize, TorrentRegistration>,
    downloads: Seq<TorrentSnapshot>,
) -> bool {
    &&& places.len() == downloads.len()
    &&& downloads.len() == readings.len()
    &&& forall|i: int|
        0 <= i < places.len() ==> {
            &&& 0 <= #[trigger] places[i] < readings.len()
            &&& carries(downloads[i], readings[places[i]])
            &&& recalls(downloads[i], readings[places[i]], registrations)
        }
    &&& forall|i: int, j: int|
        0 <= i < j < places.len() ==> #[trigger] places[i] != #[trigger] places[j]
            && downloads[i].id <= downloads[j].id
    &&& forall|k: int| 0 <= k < readings.len() ==> #[trigger] places.contains(k)
}

/// For every torrent that the session tells of there is one download that carries the session's own
/// values, and there are no others; they are listed by their numbers.
pub proof fn downloads_carry_what_the_session_tells(
    engine: &TorrentEngine,
    readings: &Vec<TorrentReading>,
    downloads: Vec<TorrentSnapshot>,
)
    requires
        call_ensures(TorrentEngine::list_downloads, (engine, readings), downloads),
    ensures
        exists|places: Seq<int>| #[trigger]
            are_readings_of(places, readings@, engine@, downloads@),
{
    let items = snapshots_of(readings@, engine@);
    let ids = reading_ids(readings@);
    let models = snapshot_models(downloads@);
    let order = lemma_sort_has_an_order(items, ids, models);
    let places = Seq::new(order.len(), |i: int| order[i] as int);
    assert(readings@.len() == readings.len());
    assert(models.len() == downloads@.len());
    assert(models.len() == order.len());
    assert forall|i: int| 0 <= i < places.len() implies {
        &&& 0 <= #[trigger] places[i] < readings@.len()
        &&& carries(downloads@[i], readings@[places[i]])
        &&& recalls(downloads@[i], readings@[places[i]], engine@)
    } by {
        assert(models[i] == items[order[i] as int]);
        assert(models[i] == downloads@[i]@);
        lemma_carried(downloads@[i], readings@[places[i]], engine@);
    }
    assert forall|i: int, j: int| 0 <= i < j < places.len() implies #[trigger] places[i]
        != #[trigger] places[j] && downloads@[i].id <= downloads@[j].id by {
        assert(comes_before(ids, order[i] as int, order[j] as int));
        assert(carries(downloads@[i], readings@[places[i]]));
        assert(carries(downloads@[j], readings@[places[j]]));
    }
    assert forall|k: int| 0 <= k < readings@.len() implies #[trigger] places.contains(k) by {
        assert(order.contains(k as usize));
        let i = choose|i: int| 0 <= i < order.len() && order[i] == k as usize;
        assert(places[i] == k);
    }
    assert(are_readings_of(places, readings@, engine@, downloads@));
}

/// How far a download is lies between nothing and all of it: the share that is there, all of it
/// where more is told than there is, and nothing where the size is not known.
pub proof fn progress_is_the_share_that_is_there(
    progress_bytes: u64,
    total_bytes: u64,
    fraction: (u64, u64),
)
    requires
        call_ensures(progress_fraction, (progress_bytes, total_bytes), fraction),
    ensures
        fraction.1 > 0,
        fraction.0 <= fraction.1,
        progress_bytes <= total_bytes && total_bytes > 0 ==> fraction.0 * total_bytes
            == progress_bytes * fraction.1,
        progress_bytes > total_bytes && total_bytes > 0 ==> fraction.0 == fraction.1,
        total_bytes == 0 ==> fraction.0 == 0,
{
}

/// What is remembered of a torrent is found by its number, and nothing is where nothing was
/// remembered.
pub proof fn registrations_are_found_by_number(
    engine: &TorrentEngine,
    id: usize,
    res: Option<&TorrentRegistration>,
)
    requires
        call_ensures(TorrentEngine::registration, (engine, id), res),
    ensures
        res is Some <==> engine@.dom().contains(id),
        res is Some ==> *res->0 == engine@[id],
{
}

} // verus!
