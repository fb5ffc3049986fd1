use rus_torrent::errors::{CompletionError, PathError};
use rus_torrent::order::stable_order;
use rus_torrent::path_completion::{
    collect_candidates, completion_query, matches_mode, resolve_user_path, shared_prefix,
    split_input, CompletionCandidate, CompletionSet, DirEntry, Listing, Lookup,
    PathCompletionMode, ReadFailure, UserEnvironment,
};
use std::path::PathBuf;

fn env() -> UserEnvironment {
    UserEnvironment { home: Ok("/home/ana".to_string()), cwd: Ok(PathBuf::from("/work")) }
}

fn bare_env() -> UserEnvironment {
    UserEnvironment { home: Err("not present".to_string()), cwd: Err("gone".to_string()) }
}

fn entry(dir: &str, name: &str, is_dir: bool) -> DirEntry {
    DirEntry {
        path: PathBuf::from(dir).join(name),
        name: Some(name.to_string()),
        is_dir,
        is_file: !is_dir,
    }
}

fn texts(set: &CompletionSet) -> Vec<String> {
    set.candidates.iter().map(|candidate| candidate.replacement.clone()).collect()
}

#[test]
fn absolute_paths_are_kept() {
    assert_eq!(resolve_user_path("/tmp/a b", &env()).unwrap(), PathBuf::from("/tmp/a b"));
    assert_eq!(resolve_user_path("/tmp/x", &bare_env()).unwrap(), PathBuf::from("/tmp/x"));
}

#[test]
fn relative_paths_start_at_the_current_directory() {
    assert_eq!(resolve_user_path("a/b", &env()).unwrap(), PathBuf::from("/work/a/b"));
}

#[test]
fn a_tilde_is_the_home_directory() {
    assert_eq!(resolve_user_path("~", &env()).unwrap(), PathBuf::from("/home/ana"));
    assert_eq!(resolve_user_path("~/films", &env()).unwrap(), PathBuf::from("/home/ana/films"));
    assert_eq!(resolve_user_path("~/~/films", &env()).unwrap(), PathBuf::from("/home/ana/films"));
    assert_eq!(resolve_user_path("~//etc", &env()).unwrap(), PathBuf::from("/etc"));
    assert_eq!(resolve_user_path("~bob", &env()).unwrap(), PathBuf::from("/work/~bob"));
}

#[test]
fn a_relative_home_starts_at_the_current_directory() {
    let env = UserEnvironment { home: Ok("h".to_string()), cwd: Ok(PathBuf::from("/work")) };
    assert_eq!(resolve_user_path("~/x", &env).unwrap(), PathBuf::from("/work/h/x"));
}

#[test]
fn space_around_a_path_does_not_count() {
    assert_eq!(resolve_user_path(" \t~/x\u{3000}\n", &env()).unwrap(), PathBuf::from("/home/ana/x"));
    assert_eq!(
        resolve_user_path("  /a  ", &env()).unwrap(),
        resolve_user_path("/a", &env()).unwrap()
    );
}

#[test]
fn paths_that_stand_for_no_place_are_refused() {
    assert!(matches!(resolve_user_path("", &env()), Err(PathError::Empty)));
    assert!(matches!(resolve_user_path(" \n ", &env()), Err(PathError::Empty)));
    match resolve_user_path("~/x", &bare_env()) {
        Err(PathError::HomeNotSet { detail }) => assert_eq!(detail, "not present"),
        other => panic!("{other:?}"),
    }
    match resolve_user_path("x", &bare_env()) {
        Err(PathError::NoWorkingDirectory { detail }) => assert_eq!(detail, "gone"),
        other => panic!("{other:?}"),
    }
}

#[test]
fn input_is_split_behind_its_last_slash() {
    let split = |input: &str| split_input(input);
    assert_eq!(split(""), (String::new(), String::new()));
    assert_eq!(split("abc"), (String::new(), "abc".to_string()));
    assert_eq!(split("a/b/"), ("a/b/".to_string(), String::new()));
    assert_eq!(split("a/b/cd"), ("a/b/".to_string(), "cd".to_string()));
    assert_eq!(split("/\u{e9}t\u{e9}"), ("/".to_string(), "\u{e9}t\u{e9}".to_string()));
}

#[test]
fn lookups_follow_what_is_typed() {
    let lookup = Lookup::from_input("", &bare_env()).unwrap();
    assert_eq!(lookup.search_dir, PathBuf::from("/"));
    assert_eq!(lookup.raw_dir_prefix, "/");
    assert_eq!(lookup.entry_prefix, "");

    let lookup = Lookup::from_input("~", &env()).unwrap();
    assert_eq!(lookup.search_dir, PathBuf::from("/home/ana"));
    assert_eq!(lookup.raw_dir_prefix, "~/");
    assert_eq!(lookup.entry_prefix, "");

    let lookup = Lookup::from_input("mov", &env()).unwrap();
    assert_eq!(lookup.search_dir, PathBuf::from("/work"));
    assert_eq!(lookup.raw_dir_prefix, "");
    assert_eq!(lookup.entry_prefix, "mov");

    let lookup = Lookup::from_input("~/films/a", &env()).unwrap();
    assert_eq!(lookup.search_dir, PathBuf::from("/home/ana/films/"));
    assert_eq!(lookup.raw_dir_prefix, "~/films/");
    assert_eq!(lookup.entry_prefix, "a");
}

#[test]
fn lookups_fail_where_paths_do() {
    assert!(matches!(Lookup::from_input("~", &bare_env()), Err(PathError::HomeNotSet { .. })));
    assert!(matches!(
        Lookup::from_input("mov", &bare_env()),
        Err(PathError::NoWorkingDirectory { .. })
    ));
}

#[test]
fn directories_and_torrent_files_are_offered() {
    let torrent = PathBuf::from("/d/a.TORRENT");
    let text = PathBuf::from("/d/a.txt");
    let hidden = PathBuf::from("/d/.torrent");
    let mode = PathCompletionMode::TorrentFile;
    assert!(matches_mode(&torrent, false, true, mode));
    assert!(!matches_mode(&text, false, true, mode));
    assert!(!matches_mode(&hidden, false, true, mode));
    assert!(!matches_mode(&torrent, false, false, mode));
    assert!(matches_mode(&text, true, false, mode));
    assert!(!matches_mode(&torrent, false, true, PathCompletionMode::Directory));
    assert!(matches_mode(&text, true, false, PathCompletionMode::Directory));
    assert!(!matches_mode(&PathBuf::from("/d/a.torren"), false, true, mode));
    assert!(!matches_mode(&PathBuf::from("/d/a.torrents"), false, true, mode));
    assert!(!matches_mode(&PathBuf::from("/d/torrent"), false, true, mode));
}

#[test]
fn candidates_come_in_their_order() {
    let query = completion_query(" d/", &env()).unwrap();
    assert_eq!(query.seed_input, "d/");
    assert_eq!(query.lookup.search_dir, PathBuf::from("/work/d/"));
    let listing = Listing::Entries(vec![
        entry("/work/d", "b.torrent", false),
        entry("/work/d", "Zoo", true),
        entry("/work/d", "A.torrent", false),
        entry("/work/d", "apple", true),
        entry("/work/d", "note.txt", false),
        DirEntry { path: PathBuf::from("/work/d/x"), name: None, is_dir: true, is_file: false },
    ]);
    let set = collect_candidates(query, PathCompletionMode::TorrentFile, &listing).unwrap();
    assert_eq!(set.seed_input, "d/");
    assert_eq!(texts(&set), vec!["d/apple/", "d/Zoo/", "d/A.torrent", "d/b.torrent"]);
    assert!(set.candidates[0].is_dir);
    assert!(!set.candidates[3].is_dir);
}

#[test]
fn candidates_of_one_rank_keep_the_order_of_the_listing() {
    let listing = Listing::Entries(vec![
        entry("/work", "Ab", true),
        entry("/work", "ab", true),
        entry("/work", "AB", true),
    ]);
    let query = completion_query("", &env()).unwrap();
    let set = collect_candidates(query, PathCompletionMode::Directory, &listing).unwrap();
    assert_eq!(texts(&set), vec!["/Ab/", "/ab/", "/AB/"]);
}

#[test]
fn candidates_continue_the_typed_text() {
    let listing = Listing::Entries(vec![
        entry("/work", "movie.torrent", false),
        entry("/work", "music", true),
        entry("/work", "Movies", true),
    ]);
    let query = completion_query("mo", &env()).unwrap();
    let set = collect_candidates(query, PathCompletionMode::TorrentFile, &listing).unwrap();
    assert_eq!(texts(&set), vec!["movie.torrent"]);
}

#[test]
fn directories_that_cannot_be_read_have_no_candidates() {
    for listing in [
        Listing::NotADirectory,
        Listing::Failed { failure: ReadFailure::NotFound, detail: String::new() },
        Listing::Failed { failure: ReadFailure::PermissionDenied, detail: String::new() },
        Listing::Failed { failure: ReadFailure::InvalidInput, detail: String::new() },
    ] {
        let query = completion_query("x/", &env()).unwrap();
        let set = collect_candidates(query, PathCompletionMode::Directory, &listing).unwrap();
        assert_eq!(set.seed_input, "x/");
        assert!(set.candidates.is_empty());
    }
}

#[test]
fn other_failures_to_read_are_told() {
    let query = completion_query("x/", &env()).unwrap();
    let listing = Listing::Failed { failure: ReadFailure::Other, detail: "broken".to_string() };
    match collect_candidates(query, PathCompletionMode::Directory, &listing) {
        Err(error) => {
            assert!(matches!(error, CompletionError::Unreadable { .. }));
            assert_eq!(
                error.message(),
                "failed to read completion directory /work/x/: broken"
            );
        }
        Ok(_) => panic!("the listing was taken"),
    }
}

#[test]
fn shared_starts_are_found() {
    assert_eq!(shared_prefix("abcd", "abxd"), "ab");
    assert_eq!(shared_prefix("abc", "abc"), "abc");
    assert_eq!(shared_prefix("", "abc"), "");
    assert_eq!(shared_prefix("\u{e9}a", "\u{e9}b"), "\u{e9}");
}

fn set_of(seed: &str, texts: &[&str]) -> CompletionSet {
    CompletionSet {
        seed_input: seed.to_string(),
        candidates: texts
            .iter()
            .map(|text| CompletionCandidate { replacement: text.to_string(), is_dir: false })
            .collect(),
    }
}

#[test]
fn common_prefixes_are_longer_than_what_is_typed() {
    assert_eq!(set_of("m", &["movie1", "movie2"]).common_prefix(), Some("movie".to_string()));
    assert_eq!(set_of("movie", &["movie1", "movie2"]).common_prefix(), None);
    assert_eq!(set_of("m", &[]).common_prefix(), None);
    assert_eq!(set_of("m", &["mono"]).common_prefix(), Some("mono".to_string()));
    assert_eq!(set_of("ab", &["\u{20ac}x", "\u{20ac}y"]).common_prefix(), Some("\u{20ac}".to_string()));
}

#[test]
fn candidates_are_labelled_by_kind() {
    let mut candidate = CompletionCandidate { replacement: "a".to_string(), is_dir: true };
    assert_eq!(candidate.kind_label(), "dir");
    candidate.is_dir = false;
    assert_eq!(candidate.kind_label(), "torrent");
}

#[test]
fn sorting_is_stable() {
    assert_eq!(stable_order(&vec![3usize, 1, 3, 1, 2]), vec![1, 3, 4, 0, 2]);
    assert_eq!(stable_order(&Vec::<usize>::new()), Vec::<usize>::new());
}

#[test]
fn resolving_again_changes_nothing() {
    for input in ["~/films", "~", "films", "/films", " ~/~/x "] {
        let path = resolve_user_path(input, &env()).unwrap();
        let text = path.to_str().unwrap();
        assert_eq!(resolve_user_path(text, &bare_env()).unwrap(), path);
    }
}

#[test]
fn directories_lead_the_torrent_candidates() {
    let listing = || {
        Listing::Entries(vec![
            entry("/work", "b.torrent", false),
            entry("/work", "C", true),
            entry("/work", "a.TORRENT", false),
            entry("/work", "b", true),
            entry("/work", "notes", false),
        ])
    };
    let query = || completion_query("", &env()).unwrap();
    let dirs = collect_candidates(query(), PathCompletionMode::Directory, &listing()).unwrap();
    let all = collect_candidates(query(), PathCompletionMode::TorrentFile, &listing()).unwrap();
    assert_eq!(texts(&dirs), vec!["/b/", "/C/"]);
    assert_eq!(texts(&all), vec!["/b/", "/C/", "/a.TORRENT", "/b.torrent"]);
    for candidate in &all.candidates {
        assert_eq!(candidate.replacement.ends_with('/'), candidate.is_dir);
    }
}
