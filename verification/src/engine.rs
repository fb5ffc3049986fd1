//! The torrents of a session: how one is queued, and how they are listed.
use crate::errors::{QueueError, StartError};
use crate::order::{is_stable_sort, picked, ranks, stable_order};
use crate::path_completion::UserEnvironment;
use crate::paths::{lossy, path_bytes, path_from, to_string_lossy};
use crate::text::{decimal, decimal_text};
use crate::torrent::{
    added_bytes, added_url, asks_nothing_else, name_from_source, options_with, output_folder,
    overwrites, parsed, source_text, AddStep, SourceModel, TorrentSource,
};
use librqbit::AddTorrentOptions;
use std::collections::HashMap;
use std::path::PathBuf;
use vstd::prelude::*;
use vstd::std_specs::hash::group_hash_axioms;
use vstd::string::*;
use vstd::utf8::{decode_utf8, encode_utf8, valid_utf8};

verus! {

broadcast use group_hash_axioms;

// ---------------------------------------------------------------------------------------------
// Registrations
// ---------------------------------------------------------------------------------------------

/// What is remembered of a torrent since it was queued.
#[derive(Debug)]
pub struct TorrentRegistration {
    pub source: String,
    pub output_dir: PathBuf,
    pub submitted_name: String,
}

impl Clone for TorrentRegistration {
    fn clone(&self) -> (copy: TorrentRegistration)
        ensures
            copy == *self,
    {
        TorrentRegistration {
            source: self.source.clone(),
            output_dir: self.output_dir.clone(),
            submitted_name: self.submitted_name.clone(),
        }
    }
}

/// What kept a session from starting, and why.
#[derive(Debug)]
pub enum StartFailure {
    /// The default download directory could not be created.
    Directory(String),
    /// The session did not start.
    Session(String),
}

/// The torrents that were queued, by the number that the session gave them.
#[derive(Debug)]
pub struct TorrentEngine {
    registrations: HashMap<usize, TorrentRegistration>,
}

impl View for TorrentEngine {
    type V = Map<usize, TorrentRegistration>;

    closed spec fn view(&self) -> Map<usize, TorrentRegistration> {
        self.registrations@
    }
}

impl TorrentEngine {
    /// Starts with a session, no torrent queued yet, or tells why there is none. `prepared` is what
    /// came of creating the default download directory and then of starting the session.
    pub fn new(default_output_dir: &PathBuf, prepared: Result<(), StartFailure>) -> (res: Result<
        TorrentEngine,
        StartError,
    >)
        ensures
            match prepared {
                Ok(_) => {
                    &&& res is Ok
                    &&& res->Ok_0@ == Map::<usize, TorrentRegistration>::empty()
                },
                Err(StartFailure::Directory(detail)) => res == Err::<TorrentEngine, StartError>(
                    StartError::DownloadDirectory { dir: *default_output_dir, detail },
                ),
                Err(StartFailure::Session(detail)) => res == Err::<TorrentEngine, StartError>(
                    StartError::Session { dir: *default_output_dir, detail },
                ),
            },
    {
        match prepared {
            Ok(_) => Ok(TorrentEngine { registrations: HashMap::new() }),
            Err(StartFailure::Directory(detail)) => Err(
                StartError::DownloadDirectory { dir: default_output_dir.clone(), detail },
            ),
            Err(StartFailure::Session(detail)) => Err(
                StartError::Session { dir: default_output_dir.clone(), detail },
            ),
        }
    }

    /// What is remembered of a torrent.
    pub fn registration(&self, id: usize) -> (res: Option<&TorrentRegistration>)
        ensures
            match res {
                Some(registration) => self@.dom().contains(id) && self@[id] == *registration,
                None => !self@.dom().contains(id),
            },
    {
        self.registrations.get(&id)
    }

    /// Remembers a torrent, unless something is remembered of it already.
    pub fn register(&mut self, id: usize, registration: TorrentRegistration)
        ensures
            final(self)@ == (if old(self)@.dom().contains(id) {
                old(self)@
            } else {
                old(self)@.insert(id, registration)
            }),
    {
        if !self.registrations.contains_key(&id) {
            self.registrations.insert(id, registration);
        }
    }
}

// ---------------------------------------------------------------------------------------------
// Queueing
// ---------------------------------------------------------------------------------------------

/// A torrent on its way into the session. Its output directory is to be created first; then
/// `directory_created` says what to add or which file to read for it, `options` how to add it, and
/// `finish` takes what came of adding it.
#[derive(Debug)]
pub struct QueueJob {
    pub source: TorrentSource,
    pub output_dir: PathBuf,
}

/// A torrent that the session manages.
#[derive(Debug)]
pub struct ManagedTorrent {
    pub id: usize,
    pub name: Option<String>,
}

/// What is remembered of a torrent that was queued.
pub open spec fn is_registration_of(
    registration: TorrentRegistration,
    source: SourceModel,
    output_dir: PathBuf,
    name: Option<String>,
) -> bool {
    &&& registration.source@ == source_text(source)
    &&& registration.output_dir == output_dir
    &&& registration.submitted_name@ == (match name {
        Some(name) => name@,
        None => name_from_source(source),
    })
}

impl TorrentEngine {
    /// Starts to queue what a text names. The directory `output_dir` of the result has to be
    /// created next.
    pub fn add_torrent_source(
        source_input: &str,
        output_dir: &PathBuf,
        env: &UserEnvironment,
    ) -> (res: Result<QueueJob, QueueError>)
        ensures
            match parsed(source_input@, *env) {
                Ok(source) => {
                    &&& res is Ok
                    &&& res->Ok_0.source@ == source
                    &&& res->Ok_0.output_dir == *output_dir
                },
                Err(error) => res == Err::<QueueJob, QueueError>(QueueError::Source(error)),
            },
    {
        match TorrentSource::parse(source_input, env) {
            Ok(source) => Ok(QueueJob { source, output_dir: output_dir.clone() }),
            Err(error) => Err(QueueError::Source(error)),
        }
    }
}

impl QueueJob {
    /// Goes on once the output directory was, or was not, created.
    pub fn directory_created(&self, created: Result<(), String>) -> (res: Result<
        AddStep,
        QueueError,
    >)
        ensures
            match created {
                Ok(_) => {
                    &&& res is Ok
                    &&& match self.source {
                        TorrentSource::LocalFile(path) => res->Ok_0 == AddStep::Open(path),
                        TorrentSource::RemoteUrl(url) => {
                            &&& res->Ok_0 is Ready
                            &&& added_url(res->Ok_0->Ready_0) == Some(url@)
                            &&& added_bytes(res->Ok_0->Ready_0) is None
                        },
                        TorrentSource::Magnet(link) => {
                            &&& res->Ok_0 is Ready
                            &&& added_url(res->Ok_0->Ready_0) == Some(link@)
                            &&& added_bytes(res->Ok_0->Ready_0) is None
                        },
                    }
                },
                Err(detail) => res == Err::<AddStep, QueueError>(
                    QueueError::OutputDirectory { dir: self.output_dir, detail },
                ),
            },
    {
        match created {
            Ok(_) => Ok(self.source.clone().into_add_torrent()),
            Err(detail) => Err(
                QueueError::OutputDirectory { dir: self.output_dir.clone(), detail },
            ),
        }
    }

    /// How the session is asked to add the torrent: into the output directory, on top of files
    /// that are there, and with nothing else asked for.
    pub fn options(&self) -> (options: AddTorrentOptions)
        ensures
            overwrites(options),
            asks_nothing_else(options),
            output_folder(options) == Some(lossy(path_bytes(self.output_dir))),
            valid_utf8(path_bytes(self.output_dir)) ==> output_folder(options) == Some(
                decode_utf8(path_bytes(self.output_dir)),
            ),
    {
        options_with(true, to_string_lossy(&self.output_dir))
    }

    /// Ends with what came of adding the torrent: remembers the torrent that the session manages,
    /// unless something is remembered of it already, and tells its number.
    pub fn finish(
        self,
        engine: &mut TorrentEngine,
        added: Result<Option<ManagedTorrent>, String>,
    ) -> (res: Result<usize, QueueError>)
        ensures
            match added {
                Ok(Some(torrent)) => {
                    &&& res == Ok::<usize, QueueError>(torrent.id)
                    &&& if old(engine)@.dom().contains(torrent.id) {
                        final(engine)@ == old(engine)@
                    } else {
                        &&& final(engine)@ == old(engine)@.insert(
                            torrent.id,
                            final(engine)@[torrent.id],
                        )
                        &&& is_registration_of(
                            final(engine)@[torrent.id],
                            self.source@,
                            self.output_dir,
                            torrent.name,
                        )
                    }
                },
                Ok(None) => {
                    &&& res == Err::<usize, QueueError>(QueueError::NoHandle)
                    &&& final(engine)@ == old(engine)@
                },
                Err(detail) => {
                    &&& res is Err
                    &&& res->Err_0 is Refused
                    &&& res->Err_0->Refused_source@ == source_text(self.source@)
                    &&& res->Err_0->Refused_detail == detail
                    &&& final(engine)@ == old(engine)@
                },
            },
    {
        let source_display = self.source.display();
        match added {
            Err(detail) => Err(QueueError::Refused { source: source_display, detail }),
            Ok(None) => Err(QueueError::NoHandle),
            Ok(Some(torrent)) => {
                let submitted_name = match torrent.name {
                    Some(name) => name,
                    None => self.source.fallback_name(),
                };
                let registration = TorrentRegistration {
                    source: source_display,
                    output_dir: self.output_dir,
                    submitted_name,
                };
                engine.register(torrent.id, registration);
                Ok(torrent.id)
            },
        }
    }
}

// ---------------------------------------------------------------------------------------------
// Listing
// ---------------------------------------------------------------------------------------------

/// What a session tells of a torrent that is running.
#[derive(Debug)]
pub struct LiveReading {
    pub download_speed: String,
    pub upload_speed: String,
    pub live_peers: usize,
    pub connecting_peers: usize,
    pub seen_peers: usize,
}

/// What a session tells of a torrent.
#[derive(Debug)]
pub struct TorrentReading {
    pub id: usize,
    pub name: Option<String>,
    pub state: String,
    pub progress_bytes: u64,
    pub total_bytes: u64,
    pub uploaded_bytes: u64,
    pub finished: bool,
    pub error: Option<String>,
    pub live: Option<LiveReading>,
}

/// A torrent as it is shown.
#[derive(Clone, Debug)]
pub struct TorrentSnapshot {
    pub id: usize,
    pub name: String,
    pub state: String,
    pub progress_bytes: u64,
    pub total_bytes: u64,
    pub uploaded_bytes: u64,
    pub finished: bool,
    pub error: Option<String>,
    pub download_speed: Option<String>,
    pub upload_speed: Option<String>,
    pub live_peers: usize,
    pub connecting_peers: usize,
    pub seen_peers: usize,
    pub source: String,
    pub output_dir: PathBuf,
}

/// A `TorrentSnapshot` in contracts.
pub struct SnapshotModel {
    pub id: usize,
    pub name: Seq<char>,
    pub state: Seq<char>,
    pub progress_bytes: u64,
    pub total_bytes: u64,
    pub uploaded_bytes: u64,
    pub finished: bool,
    pub error: Option<Seq<char>>,
    pub download_speed: Option<Seq<char>>,
    pub upload_speed: Option<Seq<char>>,
    pub live_peers: usize,
    pub connecting_peers: usize,
    pub seen_peers: usize,
    pub source: Seq<char>,
    pub output_dir: Seq<u8>,
}

/// The characters of a text that may be missing.
pub open spec fn optional_text(text: Option<String>) -> Option<Seq<char>> {
    match text {
        Some(text) => Some(text@),
        None => None,
    }
}

impl View for TorrentSnapshot {
    type V = SnapshotModel;

    open spec fn view(&self) -> SnapshotModel {
        SnapshotModel {
            id: self.id,
            name: self.name@,
            state: self.state@,
            progress_bytes: self.progress_bytes,
            total_bytes: self.total_bytes,
            uploaded_bytes: self.uploaded_bytes,
            finished: self.finished,
            error: optional_text(self.error),
            download_speed: optional_text(self.download_speed),
            upload_speed: optional_text(self.upload_speed),
            live_peers: self.live_peers,
            connecting_peers: self.connecting_peers,
            seen_peers: self.seen_peers,
            source: self.source@,
            output_dir: path_bytes(self.output_dir),
        }
    }
}

/// How a torrent is shown: by its own name, or by the name and with the source and the output
/// directory that are remembered of it; one that nothing is remembered of has stand-ins.
pub open spec fn snapshot_of(
    reading: TorrentReading,
    registrations: Map<usize, TorrentRegistration>,
) -> SnapshotModel {
    let known = registrations.dom().contains(reading.id);
    let registration = registrations[reading.id];
    SnapshotModel {
        id: reading.id,
        name: match reading.name {
            Some(name) => name@,
            None => if known {
                registration.submitted_name@
            } else {
                "torrent-"@ + decimal_text(reading.id as nat)
            },
        },
        state: reading.state@,
        progress_bytes: reading.progress_bytes,
        total_bytes: reading.total_bytes,
        uploaded_bytes: reading.uploaded_bytes,
        finished: reading.finished,
        error: optional_text(reading.error),
        download_speed: match reading.live {
            Some(live) => Some(live.download_speed@),
            None => None,
        },
        upload_speed: match reading.live {
            Some(live) => Some(live.upload_speed@),
            None => None,
        },
        live_peers: match reading.live {
            Some(live) => live.live_peers,
            None => 0,
        },
        connecting_peers: match reading.live {
            Some(live) => live.connecting_peers,
            None => 0,
        },
        seen_peers: match reading.live {
            Some(live) => live.seen_peers,
            None => 0,
        },
        source: if known {
            registration.source@
        } else {
            "<unknown>"@
        },
        output_dir: if known {
            path_bytes(registration.output_dir)
        } else {
            encode_utf8("<session-default>"@)
        },
    }
}

/// How torrents are shown, in the order in which the session tells of them.
pub open spec fn snapshots_of(
    readings: Seq<TorrentReading>,
    registrations: Map<usize, TorrentRegistration>,
) -> Seq<SnapshotModel> {
    Seq::new(readings.len(), |i: int| snapshot_of(readings[i], registrations))
}

/// The numbers of torrents.
pub open spec fn reading_ids(readings: Seq<TorrentReading>) -> Seq<usize> {
    Seq::new(readings.len(), |i: int| readings[i].id)
}

/// Snapshots in contracts.
pub open spec fn snapshot_models(snapshots: Seq<TorrentSnapshot>) -> Seq<SnapshotModel> {
    Seq::new(snapshots.len(), |i: int| snapshots[i]@)
}

/// A copy of a text that may be missing.
fn copy_of(text: &Option<String>) -> (copy: Option<String>)
    ensures
        copy == *text,
{
    match text {
        Some(text) => Some(text.clone()),
        None => None,
    }
}

/// How far a torrent is, as a fraction: what is there of what there is, never more than all of
/// it, and nothing where its size is not known.
pub fn progress_fraction(progress_bytes: u64, total_bytes: u64) -> (fraction: (u64, u64))
    ensures
        total_bytes == 0 ==> fraction == (0u64, 1u64),
        total_bytes > 0 ==> {
            &&& fraction.1 == total_bytes
            &&& fraction.0 == (if progress_bytes <= total_bytes {
                progress_bytes
            } else {
                total_bytes
            })
        },
{
    if total_bytes == 0 {
        (0, 1)
    } else if progress_bytes <= total_bytes {
        (progress_bytes, total_bytes)
    } else {
        (total_bytes, total_bytes)
    }
}

impl TorrentEngine {
    /// How a torrent is shown.
    pub fn snapshot(&self, reading: &TorrentReading) -> (snapshot: TorrentSnapshot)
        ensures
            snapshot@ == snapshot_of(*reading, self@),
    {
        let (source, output_dir, submitted_name) = match self.registration(reading.id) {
            Some(registration) => (
                registration.source.clone(),
                registration.output_dir.clone(),
                registration.submitted_name.clone(),
            ),
            None => (
                "<unknown>".to_owned(),
                path_from("<session-default>"),
                "torrent-".to_owned().concat(decimal(reading.id as u64).as_str()),
            ),
        };
        let name = match &reading.name {
            Some(name) => name.clone(),
            None => submitted_name,
        };
        let (download_speed, upload_speed, live_peers, connecting_peers, seen_peers):
            (Option<String>, Option<String>, usize, usize, usize) = match &reading.live {
            Some(live) => (
                Some(live.download_speed.clone()),
                Some(live.upload_speed.clone()),
                live.live_peers,
                live.connecting_peers,
                live.seen_peers,
            ),
            None => (None, None, 0, 0, 0),
        };
        TorrentSnapshot {
            id: reading.id,
            name,
            state: reading.state.clone(),
            progress_bytes: reading.progress_bytes,
            total_bytes: reading.total_bytes,
            uploaded_bytes: reading.uploaded_bytes,
            finished: reading.finished,
            error: copy_of(&reading.error),
            download_speed,
            upload_speed,
            live_peers,
            connecting_peers,
            seen_peers,
            source,
            output_dir,
        }
    }

    /// The torrents of the session as they are shown, by their numbers.
    pub fn list_downloads(&self, readings: &Vec<TorrentReading>) -> (downloads: Vec<
        TorrentSnapshot,
    >)
        ensures
            is_stable_sort(
                snapshots_of(readings@, self@),
                reading_ids(readings@),
                snapshot_models(downloads@),
            ),
    {
        let mut ids: Vec<usize> = Vec::new();
        let mut i: usize = 0;
        while i < readings.len()
            invariant
                i <= readings@.len(),
                ids@.len() == i,
                forall|j: int| 0 <= j < i ==> #[trigger] ids@[j] == readings@[j].id,
            decreases readings@.len() - i,
        {
            ids.push(readings[i].id);
            i = i + 1;
        }
        assert(ranks(ids@) =~= reading_ids(readings@));
        let order = stable_order(&ids);
        let mut downloads: Vec<TorrentSnapshot> = Vec::new();
        let mut n: usize = 0;
        while n < order.len()
            invariant
                n <= order@.len(),
                order@.len() == readings@.len(),
                forall|j: int|
                    0 <= j < order@.len() ==> 0 <= #[trigger] order@[j] < readings@.len(),
                downloads@.len() == n,
                forall|j: int|
                    0 <= j < n ==> (#[trigger] downloads@[j])@ == snapshot_of(
                        readings@[order@[j] as int],
                        self@,
                    ),
            decreases order@.len() - n,
        {
            downloads.push(self.snapshot(&readings[order[n]]));
            n = n + 1;
        }
        assert(snapshot_models(downloads@) =~= picked(snapshots_of(readings@, self@), order@));
        downloads
    }
}

} // verus!
