//! What can go wrong, and how it is told.
//!
//! Every error is told as a chain of sentences, the outermost first; the message of an error is
//! its chain in one line.
use crate::paths::{display, displayed, path_bytes};
use std::path::PathBuf;
use vstd::prelude::*;
use vstd::string::*;

verus! {

/// The sentences of a chain in one line, a colon and a space between them.
pub open spec fn one_line(chain: Seq<Seq<char>>) -> Seq<char>
    decreases chain.len(),
{
    if chain.len() == 0 {
        Seq::empty()
    } else if chain.len() == 1 {
        chain[0]
    } else {
        one_line(chain.drop_last()) + ": "@ + chain.last()
    }
}

/// The sentences of a chain in one line.
pub fn in_one_line(chain: &Vec<String>) -> (line: String)
    ensures
        line@ == one_line(chain.deep_view()),
{
    let mut line = String::new();
    let mut i: usize = 0;
    while i < chain.len()
        invariant
            i <= chain@.len(),
            line@ == one_line(chain.deep_view().take(i as int)),
        decreases chain@.len() - i,
    {
        if i > 0 {
            line.append(": ");
        }
        line.append(chain[i].as_str());
        assert(chain.deep_view().take(i + 1).drop_last() =~= chain.deep_view().take(i as int));
        i = i + 1;
    }
    assert(chain.deep_view().take(i as int) =~= chain.deep_view());
    line
}

/// A chain with one sentence put in front of it.
fn under(outer: String, inner: Vec<String>) -> (chain: Vec<String>)
    ensures
        chain.deep_view() == seq![outer@] + inner.deep_view(),
{
    let mut chain = inner;
    let ghost before = chain.deep_view();
    chain.insert(0, outer);
    assert(chain.deep_view() =~= seq![outer@] + before);
    chain
}

/// A chain of one sentence.
fn single(sentence: String) -> (chain: Vec<String>)
    ensures
        chain.deep_view() == seq![sentence@],
{
    let mut chain: Vec<String> = Vec::new();
    chain.push(sentence);
    assert(chain.deep_view() =~= seq![sentence@]);
    chain
}

// ---------------------------------------------------------------------------------------------
// Paths
// ---------------------------------------------------------------------------------------------

/// Why a path that the user typed stands for no place.
#[derive(Debug)]
pub enum PathError {
    /// Nothing but white space was typed.
    Empty,
    /// The path starts at the home directory, which the environment does not name.
    HomeNotSet { detail: String },
    /// The path is relative, and there is no current directory.
    NoWorkingDirectory { detail: String },
}

impl PathError {
    /// How the error is told.
    pub open spec fn told(self) -> Seq<Seq<char>> {
        match self {
            PathError::Empty => seq!["path is empty"@],
            PathError::HomeNotSet { detail } => seq!["HOME is not set"@, detail@],
            PathError::NoWorkingDirectory { detail } => seq![
                "failed to determine current working directory"@,
                detail@,
            ],
        }
    }

    /// The chain of sentences that tells the error.
    pub fn chain(&self) -> (chain: Vec<String>)
        ensures
            chain.deep_view() == self.told(),
    {
        let chain = match self {
            PathError::Empty => single("path is empty".to_owned()),
            PathError::HomeNotSet { detail } => under(
                "HOME is not set".to_owned(),
                single(detail.clone()),
            ),
            PathError::NoWorkingDirectory { detail } => under(
                "failed to determine current working directory".to_owned(),
                single(detail.clone()),
            ),
        };
        assert(chain.deep_view() =~= self.told());
        chain
    }
}

/// Why no completions can be listed.
#[derive(Debug)]
pub enum CompletionError {
    /// The typed text names no directory.
    Path(PathError),
    /// The directory could not be read.
    Unreadable { dir: PathBuf, detail: String },
}

impl CompletionError {
    /// How the error is told.
    pub open spec fn told(self) -> Seq<Seq<char>> {
        match self {
            CompletionError::Path(error) => error.told(),
            CompletionError::Unreadable { dir, detail } => seq![
                "failed to read completion directory "@ + displayed(path_bytes(dir)),
                detail@,
            ],
        }
    }

    /// The chain of sentences that tells the error.
    pub fn chain(&self) -> (chain: Vec<String>)
        ensures
            chain.deep_view() == self.told(),
    {
        match self {
            CompletionError::Path(error) => error.chain(),
            CompletionError::Unreadable { dir, detail } => {
                let outer = "failed to read completion directory ".to_owned().concat(
                    display(dir).as_str(),
                );
                let chain = under(outer, single(detail.clone()));
                assert(chain.deep_view() =~= self.told());
                chain
            },
        }
    }

    /// The error in one line.
    pub fn message(&self) -> (line: String)
        ensures
            line@ == one_line(self.told()),
    {
        in_one_line(&self.chain())
    }
}

// ---------------------------------------------------------------------------------------------
// Torrents
// ---------------------------------------------------------------------------------------------

/// Why a text is no torrent source.
#[derive(Debug)]
pub enum SourceError {
    /// Nothing but white space was given.
    Empty,
    /// The text is taken for a path that stands for no place.
    Path(PathError),
}

impl SourceError {
    /// How the error is told.
    pub open spec fn told(self) -> Seq<Seq<char>> {
        match self {
            SourceError::Empty => seq!["torrent source is empty"@],
            SourceError::Path(error) => error.told(),
        }
    }

    /// The chain of sentences that tells the error.
    pub fn chain(&self) -> (chain: Vec<String>)
        ensures
            chain.deep_view() == self.told(),
    {
        match self {
            SourceError::Empty => single("torrent source is empty".to_owned()),
            SourceError::Path(error) => error.chain(),
        }
    }
}

/// Why there is no session to add torrents to.
#[derive(Debug)]
pub enum StartError {
    /// The default download directory could not be created.
    DownloadDirectory { dir: PathBuf, detail: String },
    /// The session did not start.
    Session { dir: PathBuf, detail: String },
}

impl StartError {
    /// How the error is told.
    pub open spec fn told(self) -> Seq<Seq<char>> {
        match self {
            StartError::DownloadDirectory { dir, detail } => seq![
                "failed to create the default download directory "@ + displayed(path_bytes(dir)),
                detail@,
            ],
            StartError::Session { dir, detail } => seq![
                "failed to initialize the BitTorrent session for "@ + displayed(path_bytes(dir)),
                detail@,
            ],
        }
    }

    /// The chain of sentences that tells the error.
    pub fn chain(&self) -> (chain: Vec<String>)
        ensures
            chain.deep_view() == self.told(),
    {
        let (outer, detail) = match self {
            StartError::DownloadDirectory { dir, detail } => (
                "failed to create the default download directory ".to_owned().concat(
                    display(dir).as_str(),
                ),
                detail,
            ),
            StartError::Session { dir, detail } => (
                "failed to initialize the BitTorrent session for ".to_owned().concat(
                    display(dir).as_str(),
                ),
                detail,
            ),
        };
        let chain = under(outer, single(detail.clone()));
        assert(chain.deep_view() =~= self.told());
        chain
    }
}

/// Why a torrent was not queued.
#[derive(Debug)]
pub enum QueueError {
    /// The source is none.
    Source(SourceError),
    /// The output directory could not be created.
    OutputDirectory { dir: PathBuf, detail: String },
    /// The torrent file is not there.
    Missing { path: PathBuf },
    /// The path of the torrent file leads to something else than a file.
    NotAFile { path: PathBuf },
    /// The file is no `.torrent` file by its name.
    NotATorrent { path: PathBuf },
    /// The torrent file could not be read.
    Unreadable { path: PathBuf, detail: String },
    /// The session refused the torrent.
    Refused { source: String, detail: String },
    /// The session took the torrent and does not manage it.
    NoHandle,
}

impl QueueError {
    /// How the error is told.
    pub open spec fn told(self) -> Seq<Seq<char>> {
        match self {
            QueueError::Source(error) => error.told(),
            QueueError::OutputDirectory { dir, detail } => seq![
                "failed to create "@ + displayed(path_bytes(dir)),
                detail@,
            ],
            QueueError::Missing { path } => seq![
                "torrent file does not exist: "@ + displayed(path_bytes(path)),
            ],
            QueueError::NotAFile { path } => seq![
                "the specified torrent path is not a file: "@ + displayed(path_bytes(path)),
            ],
            QueueError::NotATorrent { path } => seq![
                "expected a .torrent file, got "@ + displayed(path_bytes(path)),
            ],
            QueueError::Unreadable { path, detail } => seq![
                "failed to read "@ + displayed(path_bytes(path)),
                detail@,
            ],
            QueueError::Refused { source, detail } => seq!["failed to add "@ + source@, detail@],
            QueueError::NoHandle => seq!["librqbit returned no managed handle for the torrent"@],
        }
    }

    /// The chain of sentences that tells the error.
    pub fn chain(&self) -> (chain: Vec<String>)
        ensures
            chain.deep_view() == self.told(),
    {
        let chain = match self {
            QueueError::Source(error) => error.chain(),
            QueueError::OutputDirectory { dir, detail } => under(
                "failed to create ".to_owned().concat(display(dir).as_str()),
                single(detail.clone()),
            ),
            QueueError::Missing { path } => single(
                "torrent file does not exist: ".to_owned().concat(display(path).as_str()),
            ),
            QueueError::NotAFile { path } => single(
                "the specified torrent path is not a file: ".to_owned().concat(
                    display(path).as_str(),
                ),
            ),
            QueueError::NotATorrent { path } => single(
                "expected a .torrent file, got ".to_owned().concat(display(path).as_str()),
            ),
            QueueError::Unreadable { path, detail } => under(
                "failed to read ".to_owned().concat(display(path).as_str()),
                single(detail.clone()),
            ),
            QueueError::Refused { source, detail } => under(
                "failed to add ".to_owned().concat(source.as_str()),
                single(detail.clone()),
            ),
            QueueError::NoHandle => single(
                "librqbit returned no managed handle for the torrent".to_owned(),
            ),
        };
        assert(chain.deep_view() =~= self.told());
        chain
    }

    /// The error in one line.
    pub fn message(&self) -> (line: String)
        ensures
            line@ == one_line(self.told()),
    {
        in_one_line(&self.chain())
    }
}

// ---------------------------------------------------------------------------------------------
// The application
// ---------------------------------------------------------------------------------------------

/// Why the configuration could not be found.
#[derive(Debug)]
pub enum ConfigError {
    /// There is no current directory to put the data into.
    NoWorkingDirectory { detail: String },
    /// Neither a home directory nor a current directory is known.
    NoHomeDirectory { detail: String },
    /// A directory of the configuration could not be created.
    Directory { dir: PathBuf, detail: String },
}

impl ConfigError {
    /// How the error is told.
    pub open spec fn told(self) -> Seq<Seq<char>> {
        match self {
            ConfigError::NoWorkingDirectory { detail } => seq![
                "failed to determine the current working directory"@,
                detail@,
            ],
            ConfigError::NoHomeDirectory { detail } => seq![
                "failed to determine the home directory"@,
                detail@,
            ],
            ConfigError::Directory { dir, detail } => seq![
                "failed to create "@ + displayed(path_bytes(dir)),
                detail@,
            ],
        }
    }

    /// The chain of sentences that tells the error.
    pub fn chain(&self) -> (chain: Vec<String>)
        ensures
            chain.deep_view() == self.told(),
    {
        let chain = match self {
            ConfigError::NoWorkingDirectory { detail } => under(
                "failed to determine the current working directory".to_owned(),
                single(detail.clone()),
            ),
            ConfigError::NoHomeDirectory { detail } => under(
                "failed to determine the home directory".to_owned(),
                single(detail.clone()),
            ),
            ConfigError::Directory { dir, detail } => under(
                "failed to create ".to_owned().concat(display(dir).as_str()),
                single(detail.clone()),
            ),
        };
        assert(chain.deep_view() =~= self.told());
        chain
    }
}

/// Why the terminal interface gives up on a key.
#[derive(Debug)]
pub enum AppError {
    /// The output directory stands for no place.
    OutputDirectory(PathError),
    /// No completions can be listed.
    Completion(CompletionError),
}

impl AppError {
    /// How the error is told.
    pub open spec fn told(self) -> Seq<Seq<char>> {
        match self {
            AppError::OutputDirectory(error) => seq!["invalid output directory"@] + error.told(),
            AppError::Completion(error) => error.told(),
        }
    }

    /// The chain of sentences that tells the error.
    pub fn chain(&self) -> (chain: Vec<String>)
        ensures
            chain.deep_view() == self.told(),
    {
        match self {
            AppError::OutputDirectory(error) => under(
                "invalid output directory".to_owned(),
                error.chain(),
            ),
            AppError::Completion(error) => error.chain(),
        }
    }
}

/// Why the desktop interface does not queue a torrent.
#[derive(Debug)]
pub enum DesktopError {
    /// The requested output directory stands for no place.
    OutputDirectory { requested: String, cause: PathError },
    /// The torrent was not queued.
    Queue(QueueError),
}

impl DesktopError {
    /// How the error is told.
    pub open spec fn told(self) -> Seq<Seq<char>> {
        match self {
            DesktopError::OutputDirectory { requested, cause } => seq![
                "failed to resolve output directory "@ + requested@,
            ] + cause.told(),
            DesktopError::Queue(error) => error.told(),
        }
    }

    /// The chain of sentences that tells the error.
    pub fn chain(&self) -> (chain: Vec<String>)
        ensures
            chain.deep_view() == self.told(),
    {
        match self {
            DesktopError::OutputDirectory { requested, cause } => under(
                "failed to resolve output directory ".to_owned().concat(requested.as_str()),
                cause.chain(),
            ),
            DesktopError::Queue(error) => error.chain(),
        }
    }
}

/// An error of the desktop interface in one line.
pub fn format_error(error: &DesktopError) -> (line: String)
    ensures
        line@ == one_line(error.told()),
{
    in_one_line(&error.chain())
}

} // verus!
