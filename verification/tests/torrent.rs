use librqbit::AddTorrent;
use rus_torrent::engine::{
    progress_fraction, LiveReading, ManagedTorrent, StartFailure, TorrentEngine, TorrentReading,
};
use rus_torrent::errors::{PathError, QueueError, SourceError, StartError};
use rus_torrent::path_completion::UserEnvironment;
use rus_torrent::torrent::{
    add_torrent_file, admit_torrent_file, file_label, is_http_url, is_magnet_link, AddStep,
    TorrentSource,
};
use std::path::PathBuf;

fn env() -> UserEnvironment {
    UserEnvironment { home: Ok("/home/ana".to_string()), cwd: Ok(PathBuf::from("/work")) }
}

fn bare_env() -> UserEnvironment {
    UserEnvironment { home: Err("not present".to_string()), cwd: Err("gone".to_string()) }
}

fn parse(input: &str) -> TorrentSource {
    TorrentSource::parse(input, &env()).unwrap()
}

fn engine() -> TorrentEngine {
    TorrentEngine::new(&PathBuf::from("/d"), Ok(())).unwrap()
}

fn reading(id: usize, name: Option<&str>) -> TorrentReading {
    TorrentReading {
        id,
        name: name.map(|name| name.to_string()),
        state: "live".to_string(),
        progress_bytes: 3,
        total_bytes: 9,
        uploaded_bytes: 1,
        finished: false,
        error: None,
        live: None,
    }
}

#[test]
fn links_are_known_by_their_scheme() {
    assert!(is_http_url("http://a"));
    assert!(is_http_url("HTTPS://A"));
    assert!(!is_http_url("http:/a"));
    assert!(!is_http_url("ftp://a"));
    assert!(!is_http_url(""));
    assert!(is_magnet_link("magnet:?xt=1"));
    assert!(is_magnet_link("MaGnEt:"));
    assert!(!is_magnet_link("magnet"));
    assert!(!is_magnet_link("xmagnet:"));
    assert!(!is_http_url("\u{212a}ttp://a"));
}

#[test]
fn sources_are_of_three_kinds() {
    match parse("  magnet:?xt=urn  ") {
        TorrentSource::Magnet(link) => assert_eq!(link, "magnet:?xt=urn"),
        other => panic!("{other:?}"),
    }
    match parse("Https://site/File.torrent\n") {
        TorrentSource::RemoteUrl(url) => assert_eq!(url, "Https://site/File.torrent"),
        other => panic!("{other:?}"),
    }
    match parse(" ~/a.torrent ") {
        TorrentSource::LocalFile(path) => assert_eq!(path, PathBuf::from("/home/ana/a.torrent")),
        other => panic!("{other:?}"),
    }
}

#[test]
fn texts_that_name_no_source_are_refused() {
    assert!(matches!(TorrentSource::parse(" ", &env()), Err(SourceError::Empty)));
    assert!(matches!(
        TorrentSource::parse("a.torrent", &bare_env()),
        Err(SourceError::Path(PathError::NoWorkingDirectory { .. }))
    ));
    assert!(matches!(
        TorrentSource::parse("~", &bare_env()),
        Err(SourceError::Path(PathError::HomeNotSet { .. }))
    ));
}

#[test]
fn only_paths_are_completed() {
    assert!(TorrentSource::supports_local_completion(""));
    assert!(TorrentSource::supports_local_completion(" ./a"));
    assert!(!TorrentSource::supports_local_completion(" http://a"));
    assert!(!TorrentSource::supports_local_completion("magnet:"));
}

#[test]
fn sources_are_shown_as_given() {
    assert_eq!(parse("magnet:?x").display(), "magnet:?x");
    assert_eq!(parse(" http://a/b ").display(), "http://a/b");
    assert_eq!(parse("b.torrent").display(), "/work/b.torrent");
    let again = parse(&parse(" http://a/b ").display());
    assert!(matches!(again, TorrentSource::RemoteUrl(url) if url == "http://a/b"));
}

#[test]
fn sources_give_names() {
    assert_eq!(parse("/a/movie.1.torrent").fallback_name(), "movie.1");
    assert_eq!(parse("/a/.hidden").fallback_name(), ".hidden");
    assert_eq!(parse("/").fallback_name(), "unnamed-torrent");
    assert_eq!(parse("http://a/b/file.torrent").fallback_name(), "file.torrent");
    assert_eq!(parse("http://a/b/").fallback_name(), "remote-torrent");
    assert_eq!(parse("magnet:?x").fallback_name(), "magnet-download");
    assert_eq!(file_label(&PathBuf::from("/a/b/..")), "unnamed-torrent");
}

#[test]
fn links_are_added_as_they_stand() {
    for text in ["magnet:?x", "http://a/b"] {
        match parse(text).into_add_torrent() {
            AddStep::Ready(AddTorrent::Url(url)) => assert_eq!(url, text),
            _ => panic!("{text} is not added as a link"),
        }
    }
}

#[test]
fn files_are_opened_first() {
    match parse("/a/b.torrent").into_add_torrent() {
        AddStep::Open(path) => assert_eq!(path, PathBuf::from("/a/b.torrent")),
        AddStep::Ready(_) => panic!("the file was not opened"),
    }
}

#[test]
fn torrent_files_are_admitted_by_what_is_found() {
    let path = PathBuf::from("/a/b.torrent");
    assert!(admit_torrent_file(&path, true, true).is_ok());
    match admit_torrent_file(&path, false, false) {
        Err(error @ QueueError::Missing { .. }) => {
            assert_eq!(error.message(), "torrent file does not exist: /a/b.torrent")
        }
        other => panic!("{other:?}"),
    }
    match admit_torrent_file(&path, true, false) {
        Err(error @ QueueError::NotAFile { .. }) => assert_eq!(
            error.message(),
            "the specified torrent path is not a file: /a/b.torrent"
        ),
        other => panic!("{other:?}"),
    }
    for name in ["/a/b.TORRENT", "/a/torrent", "/a/.torrent", "/a/b.tar"] {
        match admit_torrent_file(&PathBuf::from(name), true, true) {
            Err(error @ QueueError::NotATorrent { .. }) => {
                assert_eq!(error.message(), format!("expected a .torrent file, got {name}"))
            }
            other => panic!("{other:?}"),
        }
    }
}

#[test]
fn torrent_files_are_added_by_their_bytes() {
    let path = PathBuf::from("/a/b.torrent");
    match add_torrent_file(&path, Ok(vec![1, 2, 3])) {
        Ok(AddTorrent::TorrentFileBytes(bytes)) => assert_eq!(&bytes[..], &[1u8, 2, 3][..]),
        _ => panic!("the bytes were not added"),
    }
    match add_torrent_file(&path, Err("denied".to_string())) {
        Err(error) => assert_eq!(error.message(), "failed to read /a/b.torrent: denied"),
        Ok(_) => panic!("a file was added that could not be read"),
    }
}

#[test]
fn engines_start_with_a_session() {
    assert!(engine().registration(0).is_none());
    let dir = PathBuf::from("/d");
    match TorrentEngine::new(&dir, Err(StartFailure::Directory("full".to_string()))) {
        Err(error @ StartError::DownloadDirectory { .. }) => assert_eq!(
            error.chain(),
            vec!["failed to create the default download directory /d", "full"]
        ),
        _ => panic!("the engine started"),
    }
    match TorrentEngine::new(&dir, Err(StartFailure::Session("no port".to_string()))) {
        Err(error @ StartError::Session { .. }) => assert_eq!(
            error.chain(),
            vec!["failed to initialize the BitTorrent session for /d", "no port"]
        ),
        _ => panic!("the engine started"),
    }
}

#[test]
fn queued_torrents_are_remembered_and_listed() {
    let mut engine = engine();
    let out = PathBuf::from("/out");
    let job = TorrentEngine::add_torrent_source(" /a/film.torrent ", &out, &env()).unwrap();
    assert!(matches!(job.directory_created(Ok(())), Ok(AddStep::Open(_))));
    let options = job.options();
    assert!(options.overwrite);
    assert_eq!(options.output_folder, Some("/out".to_string()));
    assert!(!options.paused && !options.list_only && !options.disable_trackers);
    assert!(options.only_files_regex.is_none() && options.only_files.is_none());
    assert!(options.sub_folder.is_none() && options.peer_opts.is_none());
    assert!(options.force_tracker_interval.is_none());
    assert!(options.ratelimits.upload_bps.is_none() && options.ratelimits.download_bps.is_none());
    assert!(options.initial_peers.is_none() && options.preferred_id.is_none());
    assert!(options.storage_factory.is_none() && options.defer_writes.is_none());
    assert!(options.trackers.is_none());
    let id = job.finish(&mut engine, Ok(Some(ManagedTorrent { id: 4, name: None }))).unwrap();
    assert_eq!(id, 4);
    let known = engine.registration(4).unwrap();
    assert_eq!(known.source, "/a/film.torrent");
    assert_eq!(known.output_dir, out);
    assert_eq!(known.submitted_name, "film");

    let listed = engine.list_downloads(&vec![reading(4, None)]);
    assert_eq!(listed[0].name, "film");
    assert_eq!(listed[0].source, "/a/film.torrent");
    assert_eq!(listed[0].output_dir, out);
    let renamed = engine.list_downloads(&vec![reading(4, Some("Film"))]);
    assert_eq!(renamed[0].name, "Film");
}

#[test]
fn queueing_again_changes_nothing() {
    let mut engine = engine();
    let first = TorrentEngine::add_torrent_source("magnet:?a", &PathBuf::from("/1"), &env());
    let named = ManagedTorrent { id: 1, name: Some("one".to_string()) };
    assert_eq!(first.unwrap().finish(&mut engine, Ok(Some(named))).unwrap(), 1);
    let again = TorrentEngine::add_torrent_source("magnet:?b", &PathBuf::from("/2"), &env());
    let other = ManagedTorrent { id: 1, name: Some("two".to_string()) };
    assert_eq!(again.unwrap().finish(&mut engine, Ok(Some(other))).unwrap(), 1);
    let known = engine.registration(1).unwrap();
    assert_eq!(known.source, "magnet:?a");
    assert_eq!(known.submitted_name, "one");
}

#[test]
fn failures_to_queue_are_told() {
    let mut engine = engine();
    let out = PathBuf::from("/out");
    let empty = TorrentEngine::add_torrent_source(" ", &out, &env()).unwrap_err();
    assert!(matches!(empty, QueueError::Source(SourceError::Empty)));
    assert_eq!(empty.message(), "torrent source is empty");

    let job = TorrentEngine::add_torrent_source("magnet:?a", &out, &env()).unwrap();
    match job.directory_created(Err("read-only".to_string())) {
        Err(error) => assert_eq!(error.message(), "failed to create /out: read-only"),
        Ok(_) => panic!("the directory was not created"),
    }
    let none = job.finish(&mut engine, Ok(None)).unwrap_err();
    assert_eq!(none.message(), "librqbit returned no managed handle for the torrent");

    let job = TorrentEngine::add_torrent_source("magnet:?a", &out, &env()).unwrap();
    let refused = job.finish(&mut engine, Err("bad magnet: no hash".to_string())).unwrap_err();
    assert_eq!(refused.message(), "failed to add magnet:?a: bad magnet: no hash");
    assert!(engine.registration(0).is_none());
}

#[test]
fn downloads_are_listed_by_their_numbers() {
    let engine = engine();
    let listed = engine.list_downloads(&vec![
        reading(7, Some("c")),
        reading(2, Some("a")),
        reading(5, None),
    ]);
    let ids: Vec<usize> = listed.iter().map(|download| download.id).collect();
    assert_eq!(ids, vec![2, 5, 7]);
    assert_eq!(listed[1].name, "torrent-5");
    assert_eq!(listed[1].source, "<unknown>");
    assert_eq!(listed[1].output_dir, PathBuf::from("<session-default>"));
}

#[test]
fn running_torrents_show_their_speed_and_peers() {
    let mut running = reading(1, None);
    running.error = Some("slow disk".to_string());
    running.live = Some(LiveReading {
        download_speed: "1.00 MiB/s".to_string(),
        upload_speed: "0.50 MiB/s".to_string(),
        live_peers: 3,
        connecting_peers: 4,
        seen_peers: 9,
    });
    let shown = engine().snapshot(&running);
    assert_eq!(shown.download_speed, Some("1.00 MiB/s".to_string()));
    assert_eq!(shown.upload_speed, Some("0.50 MiB/s".to_string()));
    assert_eq!((shown.live_peers, shown.connecting_peers, shown.seen_peers), (3, 4, 9));
    assert_eq!(shown.error, Some("slow disk".to_string()));
    assert_eq!((shown.progress_bytes, shown.total_bytes, shown.uploaded_bytes), (3, 9, 1));
    let idle = engine().snapshot(&reading(1, None));
    assert_eq!(idle.download_speed, None);
    assert_eq!((idle.live_peers, idle.connecting_peers, idle.seen_peers), (0, 0, 0));
}

#[test]
fn progress_never_passes_the_whole() {
    assert_eq!(progress_fraction(5, 0), (0, 1));
    assert_eq!(progress_fraction(5, 10), (5, 10));
    assert_eq!(progress_fraction(12, 10), (10, 10));
}

#[test]
fn absolute_paths_are_shown_as_typed() {
    for bare in [true, false] {
        let env = UserEnvironment {
            home: if bare { Err("not present".to_string()) } else { Ok("/h".to_string()) },
            cwd: if bare { Err("gone".to_string()) } else { Ok(PathBuf::from("/w")) },
        };
        let source = TorrentSource::parse("  /a b/\u{e9}.torrent\n", &env).unwrap();
        assert_eq!(source.display(), "/a b/\u{e9}.torrent");
    }
}
