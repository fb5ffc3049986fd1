//! What holds of typed paths, of torrent files and of the directories of the client.
use crate::config::{default_home_dir, AppConfig};
use crate::desktop::output_dir_for;
use crate::errors::{ConfigError, DesktopError, PathError, QueueError};
use crate::path_completion::{
    completion_query, past_last_slash, resolve_user_path, split_input, without_home_marks,
    CompletionQuery, Lookup, UserEnvironment,
};
use crate::paths::{absolute, final_component, joined, past_last_dot, path_bytes};
use crate::text::{trimmed, trimming_is_idempotent};
use crate::torrent::{admit_torrent_file, file_label};
use std::path::PathBuf;
use vstd::prelude::*;
use vstd::string::*;
use vstd::utf8::{decode_utf8, encode_utf8, is_ascii_chars_encode_utf8, valid_utf8};

verus! {

// ---------------------------------------------------------------------------------------------
// Typed paths
// ---------------------------------------------------------------------------------------------

/// Whether a path was found to lead to itself where it is absolute, and else to what is below the
/// current directory.
pub open spec fn is_placed(
    path: Seq<u8>,
    env: UserEnvironment,
    res: Result<PathBuf, PathError>,
) -> bool {
    if absolute(path) {
        res is Ok && path_bytes(res->Ok_0) == path
    } else {
        match env.cwd {
            Ok(cwd) => res is Ok && path_bytes(res->Ok_0) == joined(path_bytes(cwd), path),
            Err(detail) => res == Err::<PathBuf, PathError>(
                PathError::NoWorkingDirectory { detail },
            ),
        }
    }
}

/// Nothing but white space stands for no place, and is told to be empty; nothing else is.
pub proof fn only_white_space_is_an_empty_path(
    input: &str,
    env: &UserEnvironment,
    res: Result<PathBuf, PathError>,
)
    requires
        call_ensures(resolve_user_path, (input, env), res),
    ensures
        trimmed(input@).len() == 0 <==> res == Err::<PathBuf, PathError>(PathError::Empty),
{
}

/// A path that begins with no tilde, or with one that is part of a name, stands for itself where it
/// is absolute, and else for what is below the current directory.
pub proof fn plain_paths_start_at_the_current_directory(
    input: &str,
    env: &UserEnvironment,
    res: Result<PathBuf, PathError>,
)
    requires
        call_ensures(resolve_user_path, (input, env), res),
        trimmed(input@).len() > 0,
        trimmed(input@)[0] == '~' ==> trimmed(input@).len() > 1 && trimmed(input@)[1] != '/',
    ensures
        is_placed(encode_utf8(trimmed(input@)), *env, res),
{
}

/// A tilde alone stands for the home directory.
pub proof fn a_tilde_stands_for_the_home_directory(
    input: &str,
    env: &UserEnvironment,
    res: Result<PathBuf, PathError>,
)
    requires
        call_ensures(resolve_user_path, (input, env), res),
        trimmed(input@) == seq!['~'],
    ensures
        match env.home {
            Ok(home) => is_placed(encode_utf8(home@), *env, res),
            Err(detail) => res == Err::<PathBuf, PathError>(PathError::HomeNotSet { detail }),
        },
{
}

/// A tilde and a slash in front of a path stand for the home directory.
pub proof fn paths_behind_a_tilde_are_below_the_home_directory(
    input: &str,
    env: &UserEnvironment,
    res: Result<PathBuf, PathError>,
    rest: Seq<char>,
)
    requires
        call_ensures(resolve_user_path, (input, env), res),
        trimmed(input@) == seq!['~', '/'] + rest,
        !(rest.len() >= 2 && rest[0] == '~' && rest[1] == '/'),
    ensures
        match env.home {
            Ok(home) => is_placed(joined(encode_utf8(home@), encode_utf8(rest)), *env, res),
            Err(detail) => res == Err::<PathBuf, PathError>(PathError::HomeNotSet { detail }),
        },
{
    let typed = trimmed(input@);
    assert(typed[0] == '~' && typed[1] == '/');
    assert(typed.skip(2) =~= rest);
    reveal_with_fuel(without_home_marks, 3);
}

/// Further tildes with a slash behind the first one do not count.
pub proof fn further_tildes_do_not_count(
    input: &str,
    shorter: &str,
    env: &UserEnvironment,
    res: Result<PathBuf, PathError>,
    again: Result<PathBuf, PathError>,
    rest: Seq<char>,
)
    requires
        call_ensures(resolve_user_path, (input, env), res),
        call_ensures(resolve_user_path, (shorter, env), again),
        trimmed(input@) == seq!['~', '/', '~', '/'] + rest,
        trimmed(shorter@) == seq!['~', '/'] + rest,
    ensures
        res is Ok <==> again is Ok,
        res is Ok ==> path_bytes(res->Ok_0) == path_bytes(again->Ok_0),
        res is Err ==> res == again,
{
    let typed = trimmed(input@);
    let less = trimmed(shorter@);
    assert(typed[0] == '~' && typed[1] == '/');
    assert(less[0] == '~' && less[1] == '/');
    assert(typed.skip(2) =~= less);
    reveal_with_fuel(without_home_marks, 2);
}

/// A text is split behind its last slash: the parts make the text, the first ends with a slash or
/// is empty, and the second holds none.
pub proof fn texts_are_split_behind_the_last_slash(input: &str, res: (String, String))
    requires
        call_ensures(split_input, (input,), res),
    ensures
        res.0@ + res.1@ == input@,
        res.0@.len() > 0 ==> res.0@.last() == '/',
        !res.1@.contains('/'),
{
    lemma_split(input@);
}

proof fn lemma_split(input: Seq<char>)
    ensures
        0 <= past_last_slash(input) <= input.len(),
        input.take(past_last_slash(input)) + input.skip(past_last_slash(input)) == input,
        past_last_slash(input) > 0 ==> input.take(past_last_slash(input)).last() == '/',
        !input.skip(past_last_slash(input)).contains('/'),
    decreases input.len(),
{
    if input.len() > 0 && input.last() != '/' {
        lemma_split(input.drop_last());
        let k = past_last_slash(input);
        assert(input.take(k) =~= input.drop_last().take(k));
        assert forall|i: int| k <= i < input.len() implies input[i] != '/' by {
            if i < input.len() - 1 {
                assert(input.drop_last().skip(k)[i - k] == input[i]);
                assert(input.drop_last().skip(k).contains(input[i]));
            }
        }
    }
    assert(input.take(past_last_slash(input)) + input.skip(past_last_slash(input)) =~= input);
}

/// There is one place only behind the last slash.
proof fn lemma_split_at(input: Seq<char>, raw: Seq<char>, entry: Seq<char>)
    requires
        input == raw + entry,
        raw.len() > 0 ==> raw.last() == '/',
        !entry.contains('/'),
    ensures
        past_last_slash(input) == raw.len(),
        input.take(past_last_slash(input)) == raw,
        input.skip(past_last_slash(input)) == entry,
    decreases entry.len(),
{
    if entry.len() > 0 {
        assert(input.last() == entry.last());
        assert(entry.contains(entry.last()));
        assert(input.drop_last() =~= raw + entry.drop_last());
        assert forall|c: char| entry.drop_last().contains(c) implies entry.contains(c) by {
            let i = choose|i: int| 0 <= i < entry.drop_last().len() && entry.drop_last()[i] == c;
            assert(entry[i] == c);
        }
        lemma_split_at(input.drop_last(), raw, entry.drop_last());
    } else if raw.len() > 0 {
        assert(input =~= raw);
    }
    assert(input.take(raw.len() as int) =~= raw);
    assert(input.skip(raw.len() as int) =~= entry);
}

// ---------------------------------------------------------------------------------------------
// Where completions are looked for
// ---------------------------------------------------------------------------------------------

/// Where nothing is typed, completions are looked for below the root.
pub proof fn nothing_typed_looks_below_the_root(
    input: &str,
    env: &UserEnvironment,
    res: Result<Lookup, PathError>,
)
    requires
        call_ensures(Lookup::from_input, (input, env), res),
        input@.len() == 0,
    ensures
        res is Ok,
        path_bytes(res->Ok_0.search_dir) == seq![47u8],
        res->Ok_0.raw_dir_prefix@ == seq!['/'],
        res->Ok_0.entry_prefix@.len() == 0,
{
    reveal_strlit("/");
    assert("/"@ =~= seq!['/']);
    is_ascii_chars_encode_utf8("/"@);
    assert(encode_utf8("/"@) =~= seq![47u8]);
}

/// For a tilde alone, completions are looked for in the home directory.
pub proof fn a_tilde_looks_in_the_home_directory(
    input: &str,
    env: &UserEnvironment,
    res: Result<Lookup, PathError>,
    dir: Result<PathBuf, PathError>,
)
    requires
        call_ensures(Lookup::from_input, (input, env), res),
        call_ensures(resolve_user_path, (input, env), dir),
        input@ == seq!['~'],
    ensures
        match dir {
            Ok(dir) => {
                &&& res is Ok
                &&& path_bytes(res->Ok_0.search_dir) == path_bytes(dir)
                &&& res->Ok_0.raw_dir_prefix@ == seq!['~', '/']
                &&& res->Ok_0.entry_prefix@.len() == 0
            },
            Err(error) => res == Err::<Lookup, PathError>(error),
        },
{
    reveal_strlit("~/");
    assert("~/"@ =~= seq!['~', '/']);
}

/// Completions of a text with a slash are looked for in the directory that the text names up to its
/// last slash, among the names that begin with the rest.
pub proof fn completions_are_looked_for_up_to_the_last_slash(
    input: &str,
    raw: &str,
    entry: Seq<char>,
    env: &UserEnvironment,
    res: Result<Lookup, PathError>,
    dir: Result<PathBuf, PathError>,
)
    requires
        call_ensures(Lookup::from_input, (input, env), res),
        call_ensures(resolve_user_path, (raw, env), dir),
        input@ == raw@ + entry,
        raw@.len() > 0,
        raw@.last() == '/',
        !entry.contains('/'),
    ensures
        match dir {
            Ok(dir) => {
                &&& res is Ok
                &&& path_bytes(res->Ok_0.search_dir) == path_bytes(dir)
                &&& res->Ok_0.raw_dir_prefix@ == raw@
                &&& res->Ok_0.entry_prefix@ == entry
            },
            Err(error) => res == Err::<Lookup, PathError>(error),
        },
{
    lemma_split_at(input@, raw@, entry);
    assert(input@[raw@.len() - 1] == '/');
}

/// Completions of a text without a slash are looked for in the current directory, among the names
/// that begin with it.
pub proof fn bare_names_are_looked_for_in_the_current_directory(
    input: &str,
    env: &UserEnvironment,
    res: Result<Lookup, PathError>,
)
    requires
        call_ensures(Lookup::from_input, (input, env), res),
        input@.len() > 0,
        input@ != seq!['~'],
        !input@.contains('/'),
    ensures
        match env.cwd {
            Ok(cwd) => {
                &&& res is Ok
                &&& path_bytes(res->Ok_0.search_dir) == path_bytes(cwd)
                &&& res->Ok_0.raw_dir_prefix@.len() == 0
                &&& res->Ok_0.entry_prefix@ == input@
            },
            Err(detail) => res == Err::<Lookup, PathError>(
                PathError::NoWorkingDirectory { detail },
            ),
        },
{
    assert(input@ =~= Seq::<char>::empty() + input@);
    lemma_split_at(input@, Seq::empty(), input@);
}

/// A completion starts from what is typed without the white space around it.
pub proof fn queries_look_for_the_trimmed_text(
    input: &str,
    text: &str,
    env: &UserEnvironment,
    res: Result<CompletionQuery, PathError>,
    lookup: Result<Lookup, PathError>,
)
    requires
        call_ensures(completion_query, (input, env), res),
        call_ensures(Lookup::from_input, (text, env), lookup),
        text@ == trimmed(input@),
    ensures
        match lookup {
            Ok(lookup) => {
                &&& res is Ok
                &&& res->Ok_0.seed_input@ == text@
                &&& path_bytes(res->Ok_0.lookup.search_dir) == path_bytes(lookup.search_dir)
                &&& res->Ok_0.lookup.raw_dir_prefix@ == lookup.raw_dir_prefix@
                &&& res->Ok_0.lookup.entry_prefix@ == lookup.entry_prefix@
            },
            Err(error) => res == Err::<CompletionQuery, PathError>(error),
        },
{
    trimming_is_idempotent(input@);
}

// ---------------------------------------------------------------------------------------------
// Torrent files
// ---------------------------------------------------------------------------------------------

/// The bytes of `.torrent`.
pub open spec fn torrent_ending() -> Seq<u8> {
    seq![46u8, 116, 111, 114, 114, 101, 110, 116]
}

/// Whether a file name is a name and `.torrent` behind it.
pub open spec fn is_named_as_a_torrent(component: Seq<u8>, name: Seq<u8>) -> bool {
    name.len() > 0 && component == name + torrent_ending()
}

/// There is one place only behind the last dot.
pub proof fn lemma_dot_at(component: Seq<u8>, front: Seq<u8>, ending: Seq<u8>)
    requires
        component == front.push(46) + ending,
        !ending.contains(46),
    ensures
        past_last_dot(component) == front.len() + 1,
        component.skip(past_last_dot(component)) == ending,
        component.take(past_last_dot(component) - 1) == front,
    decreases ending.len(),
{
    if ending.len() > 0 {
        assert(component.last() == ending.last());
        assert(ending.contains(ending.last()));
        assert(component.drop_last() =~= front.push(46) + ending.drop_last());
        assert forall|b: u8| ending.drop_last().contains(b) implies ending.contains(b) by {
            let i = choose|i: int| 0 <= i < ending.drop_last().len() && ending.drop_last()[i] == b;
            assert(ending[i] == b);
        }
        lemma_dot_at(component.drop_last(), front, ending.drop_last());
    } else {
        assert(component =~= front.push(46));
    }
    assert(component.skip((front.len() + 1) as int) =~= ending);
    assert(component.take(front.len() as int) =~= front);
}

pub proof fn lemma_no_dot(component: Seq<u8>)
    requires
        forall|i: int| 1 <= i < component.len() ==> #[trigger] component[i] != 46,
    ensures
        past_last_dot(component) <= 1,
    decreases component.len(),
{
    if component.len() > 1 {
        assert(component.last() != 46);
        lemma_no_dot(component.drop_last());
    } else if component.len() == 1 {
        reveal_with_fuel(past_last_dot, 2);
    }
}

pub proof fn lemma_dot_before(component: Seq<u8>)
    ensures
        0 <= past_last_dot(component) <= component.len(),
        past_last_dot(component) > 0 ==> component[past_last_dot(component) - 1] == 46,
    decreases component.len(),
{
    if component.len() > 0 && component.last() != 46 {
        lemma_dot_before(component.drop_last());
    }
}

pub proof fn lemma_torrent_bytes()
    ensures
        encode_utf8("torrent"@) == seq![116u8, 111, 114, 114, 101, 110, 116],
{
    reveal_strlit("torrent");
    is_ascii_chars_encode_utf8("torrent"@);
    assert(encode_utf8("torrent"@) =~= seq![116u8, 111, 114, 114, 101, 110, 116]);
}

/// A file that is there is admitted just where its name is a name and `.torrent` behind it,
/// whatever that name is.
pub proof fn files_named_as_torrents_are_admitted(path: &PathBuf, res: Result<(), QueueError>)
    requires
        call_ensures(admit_torrent_file, (path, true, true), res),
    ensures
        res is Ok <==> final_component(path_bytes(*path)) is Some && exists|name: Seq<u8>|
            #[trigger] is_named_as_a_torrent(final_component(path_bytes(*path))->0, name),
        res is Err ==> res == Err::<(), QueueError>(QueueError::NotATorrent { path: *path }),
{
    lemma_torrent_bytes();
    let ending = seq![116u8, 111, 114, 114, 101, 110, 116];
    if final_component(path_bytes(*path)) is Some {
        let component = final_component(path_bytes(*path))->0;
        if res is Ok {
            lemma_dot_before(component);
            let k = past_last_dot(component);
            let name = component.take(k - 1);
            assert(component.skip(k) == ending);
            assert(component =~= name + torrent_ending()) by {
                assert forall|i: int| k <= i < component.len() implies component[i] == ending[i
                    - k] by {
                    assert(component.skip(k)[i - k] == component[i]);
                }
            }
            assert(is_named_as_a_torrent(component, name));
        }
        if exists|name: Seq<u8>| #[trigger] is_named_as_a_torrent(component, name) {
            let name = choose|name: Seq<u8>| #[trigger] is_named_as_a_torrent(component, name);
            assert(component =~= name.push(46) + ending);
            lemma_dot_at(component, name, ending);
        }
    }
}

/// What is not there, or is no file, is refused, whatever its name is.
pub proof fn only_files_that_are_there_are_admitted(
    path: &PathBuf,
    exists_there: bool,
    is_file: bool,
    res: Result<(), QueueError>,
)
    requires
        call_ensures(admit_torrent_file, (path, exists_there, is_file), res),
    ensures
        !exists_there ==> res == Err::<(), QueueError>(QueueError::Missing { path: *path }),
        exists_there && !is_file ==> res == Err::<(), QueueError>(
            QueueError::NotAFile { path: *path },
        ),
{
}

/// The name of the torrent in a file is that of the file up to its last dot, unless the file begins
/// with that dot.
pub proof fn labels_end_before_the_last_dot(
    path: &PathBuf,
    label: String,
    name: Seq<u8>,
    ending: Seq<u8>,
)
    requires
        call_ensures(file_label, (path,), label),
        final_component(path_bytes(*path)) == Some(name.push(46) + ending),
        name.len() > 0,
        !ending.contains(46),
    ensures
        label@ == (if valid_utf8(name) {
            decode_utf8(name)
        } else {
            "unnamed-torrent"@
        }),
{
    lemma_dot_at(name.push(46) + ending, name, ending);
}

/// A file name that has no dot, or none behind its first byte, is the name of the torrent in it.
pub proof fn labels_without_a_dot_are_the_whole_name(path: &PathBuf, label: String)
    requires
        call_ensures(file_label, (path,), label),
    ensures
        match final_component(path_bytes(*path)) {
            Some(name) => (forall|i: int| 1 <= i < name.len() ==> #[trigger] name[i] != 46)
                ==> label@ == (if valid_utf8(name) {
                decode_utf8(name)
            } else {
                "unnamed-torrent"@
            }),
            None => label@ == "unnamed-torrent"@,
        },
{
    if let Some(name) = final_component(path_bytes(*path)) {
        if forall|i: int| 1 <= i < name.len() ==> #[trigger] name[i] != 46 {
            lemma_no_dot(name);
        }
    }
}

// ---------------------------------------------------------------------------------------------
// Directories
// ---------------------------------------------------------------------------------------------

/// A home directory that is given is taken, whatever the current directory is, and the current
/// directory only where none is given.
pub proof fn a_given_home_directory_is_taken(
    home: Option<PathBuf>,
    cwd: Result<PathBuf, String>,
    res: Result<PathBuf, ConfigError>,
)
    requires
        call_ensures(default_home_dir, (home, cwd), res),
    ensures
        home is Some ==> res is Ok && res->Ok_0 == home->0,
        home is None && cwd is Ok ==> res is Ok && res->Ok_0 == cwd->Ok_0,
        home is None && cwd is Err ==> res == Err::<PathBuf, ConfigError>(
            ConfigError::NoHomeDirectory { detail: cwd->Err_0 },
        ),
{
}

/// With its data in a given place, the client downloads to the home directory that is given, and
/// to the current directory only where none is given; what arrives goes below the data.
pub proof fn data_and_downloads_go_where_they_are_told_to(
    data_dir: PathBuf,
    home: Option<PathBuf>,
    cwd: Result<PathBuf, String>,
    res: Result<AppConfig, ConfigError>,
)
    requires
        call_ensures(AppConfig::discover_in, (data_dir, home, cwd), res),
    ensures
        res is Ok <==> home is Some || cwd is Ok,
        home is Some ==> res->Ok_0.default_download_dir == home->0,
        home is None && cwd is Ok ==> res->Ok_0.default_download_dir == cwd->Ok_0,
        res is Ok ==> res->Ok_0.data_dir == data_dir && path_bytes(
            res->Ok_0.incoming_torrents_dir,
        ) == joined(path_bytes(data_dir), encode_utf8("incoming-torrents"@)),
        res is Err ==> res == Err::<AppConfig, ConfigError>(
            ConfigError::NoHomeDirectory { detail: cwd->Err_0 },
        ),
{
}

/// The terminal client keeps its data below the current directory, and its downloads and what
/// arrives below its data.
pub proof fn the_terminal_keeps_all_below_the_current_directory(
    cwd: Result<PathBuf, String>,
    res: Result<AppConfig, ConfigError>,
)
    requires
        call_ensures(AppConfig::discover, (cwd,), res),
    ensures
        match cwd {
            Ok(dir) => {
                let config = res->Ok_0;
                &&& res is Ok
                &&& path_bytes(config.data_dir) == joined(
                    path_bytes(dir),
                    encode_utf8("rus-torrent-data"@),
                )
                &&& path_bytes(config.default_download_dir) == joined(
                    path_bytes(config.data_dir),
                    encode_utf8("downloads"@),
                )
                &&& path_bytes(config.incoming_torrents_dir) == joined(
                    path_bytes(config.data_dir),
                    encode_utf8("incoming-torrents"@),
                )
            },
            Err(detail) => res == Err::<AppConfig, ConfigError>(
                ConfigError::NoWorkingDirectory { detail },
            ),
        },
{
}

/// Every directory of a configuration is created, and nothing else.
pub proof fn all_directories_are_created(config: &AppConfig, dirs: Vec<PathBuf>, dir: PathBuf)
    requires
        call_ensures(AppConfig::directories, (config,), dirs),
    ensures
        dirs@.contains(dir) <==> dir == config.data_dir || dir == config.default_download_dir
            || dir == config.incoming_torrents_dir,
        dirs@.len() == 3,
{
    assert(dirs@[0] == config.data_dir);
    assert(dirs@[1] == config.default_download_dir);
    assert(dirs@[2] == config.incoming_torrents_dir);
}

/// A directory that could not be created ends the preparations, with its name and the reason.
pub proof fn directories_that_are_not_created_are_told(
    dir: &PathBuf,
    created: Result<(), String>,
    res: Result<(), ConfigError>,
)
    requires
        call_ensures(AppConfig::directory_created, (dir, created), res),
    ensures
        created is Ok <==> res is Ok,
        created is Err ==> res == Err::<(), ConfigError>(
            ConfigError::Directory { dir: *dir, detail: created->Err_0 },
        ),
{
}

/// The desktop downloads to the directory that a request names, the place that the text stands for
/// as a typed path, and to the default one where it names none.
pub proof fn requests_name_their_directory(
    requested: &Option<String>,
    default_dir: &PathBuf,
    text: &str,
    env: &UserEnvironment,
    res: Result<PathBuf, DesktopError>,
    place: Result<PathBuf, PathError>,
)
    requires
        call_ensures(output_dir_for, (requested, default_dir, env), res),
        call_ensures(resolve_user_path, (text, env), place),
        requested is Some ==> text@ == requested->0@,
    ensures
        requested is None || trimmed(requested->0@).len() == 0 ==> res == Ok::<
            PathBuf,
            DesktopError,
        >(*default_dir),
        requested is Some && trimmed(requested->0@).len() > 0 ==> match place {
            Ok(place) => res is Ok && path_bytes(res->Ok_0) == path_bytes(place),
            Err(error) => {
                &&& res is Err
                &&& res->Err_0 is OutputDirectory
                &&& res->Err_0->requested@ == trimmed(requested->0@)
                &&& res->Err_0->cause == error
            },
        },
{
}

} // verus!
