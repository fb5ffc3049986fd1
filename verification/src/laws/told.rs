//! What holds of how errors are told.
use crate::errors::{
    format_error, in_one_line, one_line, AppError, CompletionError, ConfigError, DesktopError,
    PathError, QueueError, SourceError, StartError,
};
use crate::laws::screens::are_lines;
use crate::paths::{displayed, path_bytes};
use vstd::prelude::*;
use vstd::string::*;

verus! {

proof fn lemma_sentences(chain: Vec<String>, wanted: Seq<Seq<char>>)
    requires
        chain.deep_view() =~= wanted,
    ensures
        are_lines(chain, wanted),
{
    assert(chain.deep_view().len() == chain@.len());
    assert forall|i: int| 0 <= i < wanted.len() implies (#[trigger] chain@[i])@ == wanted[i] by {
        assert(chain.deep_view()[i] == chain@[i]@);
    }
}

proof fn lemma_line_from_the_front(chain: Seq<Seq<char>>)
    requires
        chain.len() > 1,
    ensures
        one_line(chain) == chain[0] + ": "@ + one_line(chain.drop_first()),
    decreases chain.len(),
{
    let rest = chain.drop_first();
    if chain.len() == 2 {
        assert(chain.drop_last().len() == 1);
        assert(one_line(chain.drop_last()) == chain[0]);
        assert(one_line(rest) == chain[1]);
    } else {
        lemma_line_from_the_front(chain.drop_last());
        assert(chain.drop_last().drop_first() =~= rest.drop_last());
        assert(one_line(rest) == one_line(rest.drop_last()) + ": "@ + chain.last());
        assert(one_line(chain) =~= chain[0] + ": "@ + one_line(rest));
    }
}

/// A chain is told in one line by its sentences from the first on, a colon and a space between
/// them.
pub proof fn chains_are_told_in_one_line(
    chain: &Vec<String>,
    line: String,
    rest: &Vec<String>,
    tail: String,
)
    requires
        call_ensures(in_one_line, (chain,), line),
        call_ensures(in_one_line, (rest,), tail),
        chain@.len() > 0,
        rest@ == chain@.drop_first(),
    ensures
        chain@.len() == 1 ==> line@ == chain@[0]@,
        chain@.len() > 1 ==> line@ == chain@[0]@ + ": "@ + tail@,
{
    let all = chain.deep_view();
    assert(all.len() == chain@.len());
    assert(all[0] == chain@[0]@);
    assert(rest.deep_view() =~= all.drop_first());
    if chain@.len() > 1 {
        lemma_line_from_the_front(all);
    }
}

/// What is wrong with a path is told with the reason, where there is one.
pub proof fn path_errors_are_told(error: &PathError, chain: Vec<String>)
    requires
        call_ensures(PathError::chain, (error,), chain),
    ensures
        *error is Empty ==> are_lines(chain, seq!["path is empty"@]),
        *error is HomeNotSet ==> are_lines(
            chain,
            seq!["HOME is not set"@, error->HomeNotSet_detail@],
        ),
        *error is NoWorkingDirectory ==> are_lines(
            chain,
            seq![
                "failed to determine current working directory"@,
                error->NoWorkingDirectory_detail@,
            ],
        ),
{
    lemma_sentences(chain, chain.deep_view());
}

/// Why no completions are listed is told by what is wrong with the path, or with the directory
/// and the reason; in one line it is the same.
pub proof fn completion_errors_are_told(
    error: &CompletionError,
    chain: Vec<String>,
    message: String,
)
    requires
        call_ensures(CompletionError::chain, (error,), chain),
        call_ensures(CompletionError::message, (error,), message),
    ensures
        *error is Path ==> forall|inner: Vec<String>| #[trigger]
            call_ensures(PathError::chain, (&error->Path_0,), inner) ==> chain.deep_view()
                == inner.deep_view(),
        *error is Unreadable ==> are_lines(
            chain,
            seq![
                "failed to read completion directory "@ + displayed(path_bytes(error->dir)),
                error->detail@,
            ],
        ),
        forall|line: String| #[trigger]
            call_ensures(in_one_line, (&chain,), line) ==> message@ == line@,
{
    lemma_sentences(chain, chain.deep_view());
}

/// Why a text is no source is told by that it is empty, or by what is wrong with the path.
pub proof fn source_errors_are_told(error: &SourceError, chain: Vec<String>)
    requires
        call_ensures(SourceError::chain, (error,), chain),
    ensures
        *error is Empty ==> are_lines(chain, seq!["torrent source is empty"@]),
        *error is Path ==> forall|inner: Vec<String>| #[trigger]
            call_ensures(PathError::chain, (&error->Path_0,), inner) ==> chain.deep_view()
                == inner.deep_view(),
{
    lemma_sentences(chain, chain.deep_view());
}

/// Why there is no session is told with its directory and the reason.
pub proof fn start_errors_are_told(error: &StartError, chain: Vec<String>)
    requires
        call_ensures(StartError::chain, (error,), chain),
    ensures
        *error is DownloadDirectory ==> are_lines(
            chain,
            seq![
                "failed to create the default download directory "@ + displayed(
                    path_bytes(error->DownloadDirectory_dir),
                ),
                error->DownloadDirectory_detail@,
            ],
        ),
        *error is Session ==> are_lines(
            chain,
            seq![
                "failed to initialize the BitTorrent session for "@ + displayed(
                    path_bytes(error->Session_dir),
                ),
                error->Session_detail@,
            ],
        ),
{
    lemma_sentences(chain, chain.deep_view());
}

/// Why a torrent was not queued is told with the file, the directory or the source that it is
/// about, and the reason where there is one; in one line it is the same.
pub proof fn queue_errors_are_told(error: &QueueError, chain: Vec<String>, message: String)
    requires
        call_ensures(QueueError::chain, (error,), chain),
        call_ensures(QueueError::message, (error,), message),
    ensures
        *error is Source ==> forall|inner: Vec<String>| #[trigger]
            call_ensures(SourceError::chain, (&error->Source_0,), inner) ==> chain.deep_view()
                == inner.deep_view(),
        *error is OutputDirectory ==> are_lines(
            chain,
            seq![
                "failed to create "@ + displayed(path_bytes(error->OutputDirectory_dir)),
                error->OutputDirectory_detail@,
            ],
        ),
        *error is Missing ==> are_lines(
            chain,
            seq!["torrent file does not exist: "@ + displayed(path_bytes(error->Missing_path))],
        ),
        *error is NotAFile ==> are_lines(
            chain,
            seq![
                "the specified torrent path is not a file: "@ + displayed(
                    path_bytes(error->NotAFile_path),
                ),
            ],
        ),
        *error is NotATorrent ==> are_lines(
            chain,
            seq![
                "expected a .torrent file, got "@ + displayed(
                    path_bytes(error->NotATorrent_path),
                ),
            ],
        ),
        *error is Unreadable ==> are_lines(
            chain,
            seq![
                "failed to read "@ + displayed(path_bytes(error->Unreadable_path)),
                error->Unreadable_detail@,
            ],
        ),
        *error is Refused ==> are_lines(
            chain,
            seq!["failed to add "@ + error->Refused_source@, error->Refused_detail@],
        ),
        *error is NoHandle ==> are_lines(
            chain,
            seq!["librqbit returned no managed handle for the torrent"@],
        ),
        forall|line: String| #[trigger]
            call_ensures(in_one_line, (&chain,), line) ==> message@ == line@,
{
    lemma_sentences(chain, chain.deep_view());
}

/// Why there is no configuration is told with the reason, and with the directory where it is about
/// one.
pub proof fn config_errors_are_told(error: &ConfigError, chain: Vec<String>)
    requires
        call_ensures(ConfigError::chain, (error,), chain),
    ensures
        *error is NoWorkingDirectory ==> are_lines(
            chain,
            seq![
                "failed to determine the current working directory"@,
                error->NoWorkingDirectory_detail@,
            ],
        ),
        *error is NoHomeDirectory ==> are_lines(
            chain,
            seq!["failed to determine the home directory"@, error->NoHomeDirectory_detail@],
        ),
        *error is Directory ==> are_lines(
            chain,
            seq![
                "failed to create "@ + displayed(path_bytes(error->dir)),
                error->Directory_detail@,
            ],
        ),
{
    lemma_sentences(chain, chain.deep_view());
}

/// What ends the terminal interface is told by what is wrong with the path behind that it is
/// about the output directory, or by why no completions are listed.
pub proof fn interface_errors_are_told(error: &AppError, chain: Vec<String>)
    requires
        call_ensures(AppError::chain, (error,), chain),
    ensures
        *error is OutputDirectory ==> forall|inner: Vec<String>| #[trigger]
            call_ensures(PathError::chain, (&error->OutputDirectory_0,), inner)
                ==> chain.deep_view() == seq!["invalid output directory"@] + inner.deep_view(),
        *error is Completion ==> forall|inner: Vec<String>| #[trigger]
            call_ensures(CompletionError::chain, (&error->Completion_0,), inner)
                ==> chain.deep_view() == inner.deep_view(),
{
}

/// Why the desktop does not queue a torrent is told by what is wrong with the path behind the
/// directory that was asked for, or by why it was not queued; in one line it is the same.
pub proof fn desktop_errors_are_told(error: &DesktopError, chain: Vec<String>, message: String)
    requires
        call_ensures(DesktopError::chain, (error,), chain),
        call_ensures(format_error, (error,), message),
    ensures
        *error is OutputDirectory ==> forall|inner: Vec<String>| #[trigger]
            call_ensures(PathError::chain, (&error->cause,), inner) ==> chain.deep_view() == seq![
                "failed to resolve output directory "@ + error->requested@,
            ] + inner.deep_view(),
        *error is Queue ==> forall|inner: Vec<String>| #[trigger]
            call_ensures(QueueError::chain, (&error->Queue_0,), inner) ==> chain.deep_view()
                == inner.deep_view(),
        forall|line: String| #[trigger]
            call_ensures(in_one_line, (&chain,), line) ==> message@ == line@,
{
}

} // verus!
