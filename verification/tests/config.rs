use rus_torrent::config::{default_home_dir, AppConfig};
use rus_torrent::desktop::output_dir_for;
use rus_torrent::errors::{
    format_error, AppError, ConfigError, DesktopError, PathError, QueueError, SourceError,
};
use rus_torrent::path_completion::UserEnvironment;
use std::path::PathBuf;

fn env() -> UserEnvironment {
    UserEnvironment { home: Ok("/home/ana".to_string()), cwd: Ok(PathBuf::from("/work")) }
}

#[test]
fn data_goes_below_the_current_directory() {
    let config = AppConfig::discover(Ok(PathBuf::from("/work"))).unwrap();
    assert_eq!(config.data_dir, PathBuf::from("/work/rus-torrent-data"));
    assert_eq!(config.default_download_dir, PathBuf::from("/work/rus-torrent-data/downloads"));
    assert_eq!(
        config.incoming_torrents_dir,
        PathBuf::from("/work/rus-torrent-data/incoming-torrents")
    );
}

#[test]
fn data_goes_where_it_is_told_to() {
    let config =
        AppConfig::discover_in(PathBuf::from("/data"), None, Ok(PathBuf::from("/work"))).unwrap();
    assert_eq!(config.data_dir, PathBuf::from("/data"));
    assert_eq!(config.default_download_dir, PathBuf::from("/work"));
    assert_eq!(config.incoming_torrents_dir, PathBuf::from("/data/incoming-torrents"));
}

#[test]
fn configurations_that_are_not_found_are_told() {
    let error = AppConfig::discover(Err("gone".to_string())).unwrap_err();
    assert!(matches!(error, ConfigError::NoWorkingDirectory { .. }));
    assert_eq!(
        error.chain(),
        vec!["failed to determine the current working directory", "gone"]
    );
    let error =
        AppConfig::discover_in(PathBuf::from("/d"), None, Err("gone".to_string())).unwrap_err();
    assert!(matches!(error, ConfigError::NoHomeDirectory { .. }));
    assert_eq!(error.chain(), vec!["failed to determine the home directory", "gone"]);
}

#[test]
fn the_home_directory_is_preferred() {
    let home = PathBuf::from("/h");
    assert_eq!(default_home_dir(Some(home.clone()), Err("gone".to_string())).unwrap(), home);
    assert_eq!(default_home_dir(None, Ok(PathBuf::from("/w"))).unwrap(), PathBuf::from("/w"));
}

#[test]
fn directories_are_created_in_order() {
    let config =
        AppConfig::discover_in(PathBuf::from("/data"), None, Ok(PathBuf::from("/work"))).unwrap();
    assert_eq!(
        config.directories(),
        vec![
            PathBuf::from("/data"),
            PathBuf::from("/work"),
            PathBuf::from("/data/incoming-torrents"),
        ]
    );
    let of_the_terminal = AppConfig::discover(Ok(PathBuf::from("/work"))).unwrap();
    assert_eq!(
        of_the_terminal.directories(),
        vec![
            PathBuf::from("/work/rus-torrent-data"),
            PathBuf::from("/work/rus-torrent-data/downloads"),
            PathBuf::from("/work/rus-torrent-data/incoming-torrents"),
        ]
    );
    let dir = PathBuf::from("/data");
    assert!(AppConfig::directory_created(&dir, Ok(())).is_ok());
    let error = AppConfig::directory_created(&dir, Err("full".to_string())).unwrap_err();
    assert!(matches!(error, ConfigError::Directory { .. }));
    assert_eq!(error.chain(), vec!["failed to create /data", "full"]);
}

#[test]
fn desktop_requests_choose_their_directory() {
    let default_dir = PathBuf::from("/default");
    let choose = |requested: Option<&str>| {
        output_dir_for(&requested.map(|text| text.to_string()), &default_dir, &env())
    };
    assert_eq!(choose(None).unwrap(), default_dir);
    assert_eq!(choose(Some(" \n")).unwrap(), default_dir);
    assert_eq!(choose(Some(" ~/x ")).unwrap(), PathBuf::from("/home/ana/x"));
    assert_eq!(choose(Some("y")).unwrap(), PathBuf::from("/work/y"));
}

#[test]
fn desktop_errors_are_told_in_one_line() {
    let env = UserEnvironment { home: Err("not present".to_string()), cwd: Err("gone".to_string()) };
    let requested = Some(" ~/x ".to_string());
    let error = output_dir_for(&requested, &PathBuf::from("/d"), &env).unwrap_err();
    assert!(matches!(
        error,
        DesktopError::OutputDirectory { cause: PathError::HomeNotSet { .. }, .. }
    ));
    assert_eq!(
        format_error(&error),
        "failed to resolve output directory ~/x: HOME is not set: not present"
    );
    let error = DesktopError::Queue(QueueError::Source(SourceError::Empty));
    assert_eq!(format_error(&error), "torrent source is empty");
}

#[test]
fn interface_errors_are_told_as_chains() {
    assert_eq!(
        AppError::OutputDirectory(PathError::Empty).chain(),
        vec!["invalid output directory", "path is empty"]
    );
    assert_eq!(
        PathError::NoWorkingDirectory { detail: "gone".to_string() }.chain(),
        vec!["failed to determine current working directory", "gone"]
    );
}
