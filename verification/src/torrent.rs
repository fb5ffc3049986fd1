//! Torrent sources, the torrents of a session, and how a torrent is queued.
use crate::errors::{QueueError, SourceError};
use crate::path_completion::{
    past_last_slash, resolve_user_path, resolved, split_input, stands_for_itself, UserEnvironment,
};
use crate::paths::{
    display, displayed, extension, file_stem, path_bytes, path_extension, path_stem_text,
};
use crate::text::{begins_with_lowered, lowered_begins_with, trimmed, trimming_is_idempotent};
use librqbit::{AddTorrent, AddTorrentOptions};
use std::path::PathBuf;
use vstd::prelude::*;
use vstd::string::*;
use vstd::utf8::{decode_utf8, encode_utf8, valid_utf8};

verus! {

// ---------------------------------------------------------------------------------------------
// Functions of librqbit
// ---------------------------------------------------------------------------------------------

/// `librqbit::AddTorrent`, what a session is asked to add.
#[verifier::external_type_specification]
#[verifier::external_body]
pub struct ExAddTorrent<'a>(librqbit::AddTorrent<'a>);

/// The URL that an `AddTorrent` holds, where it holds one.
pub uninterp spec fn added_url(add: AddTorrent<'static>) -> Option<Seq<char>>;

/// The bytes of a torrent file that an `AddTorrent` holds, where it holds some.
pub uninterp spec fn added_bytes(add: AddTorrent<'static>) -> Option<Seq<u8>>;

/// `AddTorrent::from_url`: holds the URL and no file.
#[verifier::external_body]
pub(crate) fn add_from_url(url: String) -> (add: AddTorrent<'static>)
    ensures
        added_url(add) == Some(url@),
        added_bytes(add) is None,
{
    AddTorrent::from_url(url)
}

/// `AddTorrent::from_bytes`: holds the bytes of a file and no URL.
#[verifier::external_body]
pub(crate) fn add_from_bytes(bytes: Vec<u8>) -> (add: AddTorrent<'static>)
    ensures
        added_bytes(add) == Some(bytes@),
        added_url(add) is None,
{
    AddTorrent::from_bytes(bytes)
}

/// `librqbit::AddTorrentOptions`, how a session is asked to add it.
#[verifier::external_type_specification]
#[verifier::external_body]
pub struct ExAddTorrentOptions(librqbit::AddTorrentOptions);

/// Whether existing files may be written on top of (the field `overwrite`).
pub uninterp spec fn overwrites(options: AddTorrentOptions) -> bool;

/// The folder that the torrent is downloaded to, where it is not the session's own (the field
/// `output_folder`).
pub uninterp spec fn output_folder(options: AddTorrentOptions) -> Option<Seq<char>>;

/// Whether the torrent starts paused (the field `paused`).
pub uninterp spec fn starts_paused(options: AddTorrentOptions) -> bool;

/// The pattern that the names of the files to download match, where not all are downloaded (the
/// field `only_files_regex`).
pub uninterp spec fn file_pattern(options: AddTorrentOptions) -> Option<Seq<char>>;

/// The numbers of the files to download, where not all are downloaded (the field `only_files`).
pub uninterp spec fn chosen_files(options: AddTorrentOptions) -> Option<Seq<usize>>;

/// Whether the files of the torrent are listed and nothing is downloaded (the field `list_only`).
pub uninterp spec fn lists_only(options: AddTorrentOptions) -> bool;

/// The folder below the session's own that the torrent is downloaded to (the field `sub_folder`).
pub uninterp spec fn sub_folder(options: AddTorrentOptions) -> Option<Seq<char>>;

/// Whether the torrent connects to peers in another way than the session does (the field
/// `peer_opts`).
pub uninterp spec fn sets_peer_options(options: AddTorrentOptions) -> bool;

/// Whether trackers are asked at an interval other than their own (the field
/// `force_tracker_interval`).
pub uninterp spec fn sets_tracker_interval(options: AddTorrentOptions) -> bool;

/// Whether trackers are not asked (the field `disable_trackers`).
pub uninterp spec fn ignores_trackers(options: AddTorrentOptions) -> bool;

/// Whether the speed of the download is limited (the field `ratelimits.download_bps`).
pub uninterp spec fn limits_download(options: AddTorrentOptions) -> bool;

/// Whether the speed of the upload is limited (the field `ratelimits.upload_bps`).
pub uninterp spec fn limits_upload(options: AddTorrentOptions) -> bool;

/// Whether the torrent starts with peers that are given (the field `initial_peers`).
pub uninterp spec fn has_initial_peers(options: AddTorrentOptions) -> bool;

/// The number that the torrent is to have in the session (the field `preferred_id`).
pub uninterp spec fn preferred_id(options: AddTorrentOptions) -> Option<usize>;

/// Whether the torrent is stored in another way than the session's torrents are (the field
/// `storage_factory`).
pub uninterp spec fn sets_storage(options: AddTorrentOptions) -> bool;

/// Whether what arrives is written in threads of its own, where this is said (the field
/// `defer_writes`).
pub uninterp spec fn deferred_writes(options: AddTorrentOptions) -> Option<bool>;

/// The trackers that are asked besides those of the torrent (the field `trackers`).
pub uninterp spec fn added_trackers(options: AddTorrentOptions) -> Option<Seq<Seq<char>>>;

/// Whether options leave everything but the output folder, and what is there already, to the
/// session: the torrent starts at once, with all its files and its own trackers, unlimited.
pub open spec fn asks_nothing_else(options: AddTorrentOptions) -> bool {
    &&& !starts_paused(options)
    &&& file_pattern(options) is None
    &&& chosen_files(options) is None
    &&& !lists_only(options)
    &&& sub_folder(options) is None
    &&& !sets_peer_options(options)
    &&& !sets_tracker_interval(options)
    &&& !ignores_trackers(options)
    &&& !limits_download(options)
    &&& !limits_upload(options)
    &&& !has_initial_peers(options)
    &&& preferred_id(options) is None
    &&& !sets_storage(options)
    &&& deferred_writes(options) is None
    &&& added_trackers(options) is None
}

/// `AddTorrentOptions` with the fields `overwrite` and `output_folder` set. Every other field is
/// that of `AddTorrentOptions::default()`, which the source derives field by field: `false` for
/// `paused`, `list_only` and `disable_trackers`, no limit in either direction for `ratelimits`,
/// and `None` for the rest.
#[verifier::external_body]
pub(crate) fn options_with(overwrite: bool, folder: String) -> (options: AddTorrentOptions)
    ensures
        overwrites(options) == overwrite,
        output_folder(options) == Some(folder@),
        !starts_paused(options),
        file_pattern(options) is None,
        chosen_files(options) is None,
        !lists_only(options),
        sub_folder(options) is None,
        !sets_peer_options(options),
        !sets_tracker_interval(options),
        !ignores_trackers(options),
        !limits_download(options),
        !limits_upload(options),
        !has_initial_peers(options),
        preferred_id(options) is None,
        !sets_storage(options),
        deferred_writes(options) is None,
        added_trackers(options) is None,
{
    AddTorrentOptions { overwrite, output_folder: Some(folder), ..Default::default() }
}

// ---------------------------------------------------------------------------------------------
// Sources
// ---------------------------------------------------------------------------------------------

/// Where a torrent comes from.
#[derive(Debug)]
pub enum TorrentSource {
    LocalFile(PathBuf),
    RemoteUrl(String),
    Magnet(String),
}

/// A `TorrentSource` in contracts.
pub enum SourceModel {
    LocalFile(Seq<u8>),
    RemoteUrl(Seq<char>),
    Magnet(Seq<char>),
}

impl View for TorrentSource {
    type V = SourceModel;

    open spec fn view(&self) -> SourceModel {
        match *self {
            TorrentSource::LocalFile(path) => SourceModel::LocalFile(path_bytes(path)),
            TorrentSource::RemoteUrl(url) => SourceModel::RemoteUrl(url@),
            TorrentSource::Magnet(link) => SourceModel::Magnet(link@),
        }
    }
}

impl Clone for TorrentSource {
    fn clone(&self) -> (copy: TorrentSource)
        ensures
            copy == *self,
    {
        match self {
            TorrentSource::LocalFile(path) => TorrentSource::LocalFile(path.clone()),
            TorrentSource::RemoteUrl(url) => TorrentSource::RemoteUrl(url.clone()),
            TorrentSource::Magnet(link) => TorrentSource::Magnet(link.clone()),
        }
    }
}

/// Whether a text is an HTTP or HTTPS URL by its scheme, in letters of either case.
pub open spec fn looks_like_url(value: Seq<char>) -> bool {
    begins_with_lowered(value, "http://"@) || begins_with_lowered(value, "https://"@)
}

/// Whether a text is a magnet link by its scheme, in letters of either case.
pub open spec fn looks_like_magnet(value: Seq<char>) -> bool {
    begins_with_lowered(value, "magnet:"@)
}

/// Whether a text is an HTTP or HTTPS URL by its scheme.
pub fn is_http_url(value: &str) -> (res: bool)
    ensures
        res == looks_like_url(value@),
{
    lowered_begins_with(value, "http://") || lowered_begins_with(value, "https://")
}

/// Whether a text is a magnet link by its scheme.
pub fn is_magnet_link(value: &str) -> (res: bool)
    ensures
        res == looks_like_magnet(value@),
{
    lowered_begins_with(value, "magnet:")
}

/// The source that a text names: a magnet link or a URL as it stands, and else the file that the
/// text leads to as a path. White space at the ends of the text does not count.
pub open spec fn parsed(input: Seq<char>, env: UserEnvironment) -> Result<
    SourceModel,
    SourceError,
> {
    let text = trimmed(input);
    if text.len() == 0 {
        Err(SourceError::Empty)
    } else if looks_like_magnet(text) {
        Ok(SourceModel::Magnet(text))
    } else if looks_like_url(text) {
        Ok(SourceModel::RemoteUrl(text))
    } else {
        match resolved(text, env) {
            Ok(path) => Ok(SourceModel::LocalFile(path)),
            Err(error) => Err(SourceError::Path(error)),
        }
    }
}

/// Whether paths are completed for a text: unless it is a magnet link or a URL.
pub open spec fn completes_locally(input: Seq<char>) -> bool {
    !looks_like_magnet(trimmed(input)) && !looks_like_url(trimmed(input))
}

/// How a source is shown.
pub open spec fn source_text(source: SourceModel) -> Seq<char> {
    match source {
        SourceModel::LocalFile(path) => displayed(path),
        SourceModel::RemoteUrl(url) => url,
        SourceModel::Magnet(link) => link,
    }
}

/// The name of the torrent in a file, taken from the path of the file.
pub open spec fn label_of(path: Seq<u8>) -> Seq<char> {
    match path_stem_text(path) {
        Some(stem) => stem,
        None => "unnamed-torrent"@,
    }
}

/// The name of a torrent that is known by its source alone.
pub open spec fn name_from_source(source: SourceModel) -> Seq<char> {
    match source {
        SourceModel::LocalFile(path) => label_of(path),
        SourceModel::RemoteUrl(url) => {
            let last = url.skip(past_last_slash(url));
            if last.len() == 0 {
                "remote-torrent"@
            } else {
                last
            }
        },
        SourceModel::Magnet(_) => "magnet-download"@,
    }
}

/// The name of the torrent in a file, taken from the path of the file.
pub fn file_label(path: &PathBuf) -> (label: String)
    ensures
        label@ == label_of(path_bytes(*path)),
{
    match file_stem(path) {
        Some(stem) => stem,
        None => "unnamed-torrent".to_owned(),
    }
}

/// What is to be done before a source can be added.
pub enum AddStep {
    /// The source can be added as it is.
    Ready(AddTorrent<'static>),
    /// The torrent file has to be read first.
    Open(PathBuf),
}

impl TorrentSource {
    /// The source that a text names. An absolute path names the file there.
    pub fn parse(input: &str, env: &UserEnvironment) -> (res: Result<TorrentSource, SourceError>)
        ensures
            match res {
                Ok(source) => parsed(input@, *env) == Ok::<SourceModel, SourceError>(source@),
                Err(error) => parsed(input@, *env) == Err::<SourceModel, SourceError>(error),
            },
            completes_locally(input@) && stands_for_itself(trimmed(input@)) ==> res is Ok
                && res->Ok_0@ == SourceModel::LocalFile(encode_utf8(trimmed(input@))),
    {
        let text = input.trim();
        proof {
            trimming_is_idempotent(input@);
        }
        if text.is_empty() {
            return Err(SourceError::Empty);
        }
        if is_magnet_link(text) {
            return Ok(TorrentSource::Magnet(text.to_owned()));
        }
        if is_http_url(text) {
            return Ok(TorrentSource::RemoteUrl(text.to_owned()));
        }
        match resolve_user_path(text, env) {
            Ok(path) => Ok(TorrentSource::LocalFile(path)),
            Err(error) => Err(SourceError::Path(error)),
        }
    }

    /// Whether paths are completed for a text.
    pub fn supports_local_completion(input: &str) -> (res: bool)
        ensures
            res == completes_locally(input@),
    {
        let text = input.trim();
        proof {
            reveal_strlit("magnet:");
            reveal_strlit("http://");
            reveal_strlit("https://");
        }
        text.is_empty() || (!is_magnet_link(text) && !is_http_url(text))
    }

    /// How the source is shown.
    pub fn display(&self) -> (text: String)
        ensures
            text@ == source_text(self@),
            self matches TorrentSource::LocalFile(path) ==> valid_utf8(path_bytes(*path)) ==> text@
                == decode_utf8(path_bytes(*path)),
    {
        match self {
            TorrentSource::LocalFile(path) => display(path),
            TorrentSource::RemoteUrl(url) => url.clone(),
            TorrentSource::Magnet(link) => link.clone(),
        }
    }

    /// What the session is asked to add, where that needs no file; else the file to read.
    pub fn into_add_torrent(self) -> (step: AddStep)
        ensures
            match self {
                TorrentSource::LocalFile(path) => step == AddStep::Open(path),
                TorrentSource::RemoteUrl(url) => {
                    &&& step is Ready
                    &&& added_url(step->Ready_0) == Some(url@)
                    &&& added_bytes(step->Ready_0) is None
                },
                TorrentSource::Magnet(link) => {
                    &&& step is Ready
                    &&& added_url(step->Ready_0) == Some(link@)
                    &&& added_bytes(step->Ready_0) is None
                },
            },
    {
        match self {
            TorrentSource::LocalFile(path) => AddStep::Open(path),
            TorrentSource::RemoteUrl(url) => AddStep::Ready(add_from_url(url)),
            TorrentSource::Magnet(link) => AddStep::Ready(add_from_url(link)),
        }
    }

    /// The name of a torrent that is known by its source alone.
    pub fn fallback_name(&self) -> (name: String)
        ensures
            name@ == name_from_source(self@),
    {
        match self {
            TorrentSource::LocalFile(path) => file_label(path),
            TorrentSource::RemoteUrl(url) => {
                let (_, last) = split_input(url.as_str());
                if last.as_str().is_empty() {
                    "remote-torrent".to_owned()
                } else {
                    last
                }
            },
            TorrentSource::Magnet(_) => "magnet-download".to_owned(),
        }
    }
}

// ---------------------------------------------------------------------------------------------
// Torrent files
// ---------------------------------------------------------------------------------------------

/// Whether the file at a path is a torrent file by its name.
pub open spec fn is_torrent_path(path: Seq<u8>) -> bool {
    path_extension(path) == Some(encode_utf8("torrent"@))
}

/// Why a torrent file is not read: it is not there, or no file, or no torrent file by its name.
pub open spec fn file_objection(path: PathBuf, exists: bool, is_file: bool) -> Option<QueueError> {
    if !exists {
        Some(QueueError::Missing { path })
    } else if !is_file {
        Some(QueueError::NotAFile { path })
    } else if !is_torrent_path(path_bytes(path)) {
        Some(QueueError::NotATorrent { path })
    } else {
        None
    }
}

/// Whether two byte sequences are the same.
fn same_bytes(a: &[u8], b: &[u8]) -> (same: bool)
    ensures
        same == (a@ == b@),
{
    if a.len() != b.len() {
        return false;
    }
    let mut i: usize = 0;
    while i < a.len()
        invariant
            i <= a@.len(),
            a@.len() == b@.len(),
            forall|j: int| 0 <= j < i ==> a@[j] == b@[j],
        decreases a@.len() - i,
    {
        if a[i] != b[i] {
            assert(a@[i as int] != b@[i as int]);
            return false;
        }
        i = i + 1;
    }
    assert(a@ =~= b@);
    true
}

/// Whether the torrent file at a path is to be read, by what is found there.
pub fn admit_torrent_file(path: &PathBuf, exists: bool, is_file: bool) -> (res: Result<
    (),
    QueueError,
>)
    ensures
        match res {
            Ok(_) => file_objection(*path, exists, is_file) is None,
            Err(error) => file_objection(*path, exists, is_file) == Some(error),
        },
{
    if !exists {
        return Err(QueueError::Missing { path: path.clone() });
    }
    if !is_file {
        return Err(QueueError::NotAFile { path: path.clone() });
    }
    match extension(path) {
        Some(found) => if same_bytes(found.as_slice(), "torrent".as_bytes()) {
            Ok(())
        } else {
            Err(QueueError::NotATorrent { path: path.clone() })
        },
        None => Err(QueueError::NotATorrent { path: path.clone() }),
    }
}

/// What the session is asked to add once the torrent file was read.
pub fn add_torrent_file(path: &PathBuf, contents: Result<Vec<u8>, String>) -> (res: Result<
    AddTorrent<'static>,
    QueueError,
>)
    ensures
        match contents {
            Ok(bytes) => {
                &&& res is Ok
                &&& added_bytes(res->Ok_0) == Some(bytes@)
                &&& added_url(res->Ok_0) is None
            },
            Err(detail) => res == Err::<AddTorrent<'static>, QueueError>(
                QueueError::Unreadable { path: *path, detail },
            ),
        },
{
    match contents {
        Ok(bytes) => Ok(add_from_bytes(bytes)),
        Err(detail) => Err(QueueError::Unreadable { path: path.clone(), detail }),
    }
}

} // verus!
