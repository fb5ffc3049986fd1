use rus_torrent::app::{App, KeyOutcome};
use rus_torrent::config::AppConfig;
use rus_torrent::downloads_view::{kept_count, shown_positions, Dialog, DownloadsView, SortBy};
use rus_torrent::engine::TorrentSnapshot;
use rus_torrent::form::{FocusArea, Key, KeyCode, Screen};
use rus_torrent::path_completion::UserEnvironment;
use rus_torrent::text::is_text_held;
use std::path::PathBuf;

fn env() -> UserEnvironment {
    UserEnvironment { home: Ok("/home/ana".to_string()), cwd: Ok(PathBuf::from("/work")) }
}

fn press(app: &mut App, code: KeyCode) {
    let outcome = app.handle_key(Key { code, control: false, alt: false }, &env()).unwrap();
    assert!(matches!(outcome, KeyOutcome::Handled));
}

fn type_text(app: &mut App, text: &str) {
    for c in text.chars() {
        press(app, KeyCode::Char(c));
    }
}

fn download(id: usize, name: &str, progress_bytes: u64, total_bytes: u64) -> TorrentSnapshot {
    TorrentSnapshot {
        id,
        name: name.to_string(),
        state: "live".to_string(),
        progress_bytes,
        total_bytes,
        uploaded_bytes: 0,
        finished: false,
        error: None,
        download_speed: None,
        upload_speed: None,
        live_peers: 0,
        connecting_peers: 0,
        seen_peers: 0,
        source: "magnet:?x".to_string(),
        output_dir: PathBuf::from("/out"),
    }
}

fn downloads() -> Vec<TorrentSnapshot> {
    vec![
        download(0, "Ubuntu", 7, 30),
        download(1, "arch linux", 9, 10),
        download(2, "Debian Linux", 7, 20),
    ]
}

/// The interface on the list of downloads.
fn app() -> App {
    let mut app = App::new(AppConfig {
        data_dir: PathBuf::from("/data"),
        default_download_dir: PathBuf::from("/home/ana"),
        incoming_torrents_dir: PathBuf::from("/data/incoming-torrents"),
    });
    app.refresh_downloads(downloads());
    press(&mut app, KeyCode::Left);
    press(&mut app, KeyCode::Down);
    press(&mut app, KeyCode::Right);
    assert_eq!((app.current_screen(), app.focus()), (Screen::Downloads, FocusArea::Content));
    app
}

fn shown(app: &App) -> Vec<usize> {
    app.shown_downloads()
}

fn view(filter: &str, sort: SortBy, reversed: bool) -> DownloadsView {
    DownloadsView { filter: filter.to_string(), sort, reversed, compact: false }
}

#[test]
fn texts_are_found_in_texts() {
    let held = |text: &str, part: &str| {
        is_text_held(&text.chars().collect::<Vec<_>>(), &part.chars().collect::<Vec<_>>())
    };
    assert!(held("abcabd", "abd"));
    assert!(held("abc", ""));
    assert!(held("", ""));
    assert!(held("abc", "abc"));
    assert!(!held("abc", "abcd"));
    assert!(!held("abc", "ac"));
}

#[test]
fn filters_keep_names_case_aside() {
    let downloads = downloads();
    assert_eq!(kept_count(&downloads, ""), 3);
    assert_eq!(kept_count(&downloads, "LINUX"), 2);
    assert_eq!(kept_count(&downloads, "ubuntu"), 1);
    assert_eq!(kept_count(&downloads, "bsd"), 0);
    assert_eq!(shown_positions(&downloads, &view("linux", SortBy::Number, false)), vec![1, 2]);
}

#[test]
fn downloads_are_sorted_by_each_key() {
    let downloads = downloads();
    let order = |sort, reversed| shown_positions(&downloads, &view("", sort, reversed));
    assert_eq!(order(SortBy::Number, false), vec![0, 1, 2]);
    assert_eq!(order(SortBy::Name, false), vec![1, 2, 0]);
    assert_eq!(order(SortBy::Size, false), vec![1, 2, 0]);
    assert_eq!(order(SortBy::Downloaded, false), vec![0, 2, 1]);
    assert_eq!(order(SortBy::Downloaded, true), vec![1, 2, 0]);
    assert_eq!(order(SortBy::Number, true), vec![2, 1, 0]);
}

#[test]
fn sort_keys_stop_at_their_ends() {
    let all = SortBy::all();
    let titles: Vec<&str> = all.iter().map(|sort| sort.title()).collect();
    assert_eq!(titles, vec!["Number", "Name", "Size", "Downloaded"]);
    for i in 0..all.len() {
        assert_eq!(all[i].below(), all[(i + 1).min(3)]);
        assert_eq!(all[i].above(), all[i.saturating_sub(1)]);
    }
}

#[test]
fn f1_opens_help_and_changes_nothing_else() {
    let mut app = app();
    let status = app.status_line().to_string();
    press(&mut app, KeyCode::F(1));
    assert!(app.help_open());
    type_text(&mut app, "xq/");
    press(&mut app, KeyCode::Down);
    press(&mut app, KeyCode::Left);
    press(&mut app, KeyCode::F(1));
    assert!(app.help_open());
    assert!(app.dialog().is_none());
    assert_eq!(app.downloads_selected(), Some(0));
    assert_eq!(app.focus(), FocusArea::Content);
    assert_eq!(app.status_line(), status);
    assert_eq!(app.downloads().len(), 3);
    press(&mut app, KeyCode::Esc);
    assert!(!app.help_open());
    assert_eq!(app.focus(), FocusArea::Content);
    press(&mut app, KeyCode::F(1));
    press(&mut app, KeyCode::Enter);
    assert!(!app.help_open());
    press(&mut app, KeyCode::F(1));
    press(&mut app, KeyCode::F(10));
    assert!(app.should_quit());
}

#[test]
fn f1_opens_help_on_the_form_too() {
    let mut app = App::new(AppConfig {
        data_dir: PathBuf::from("/data"),
        default_download_dir: PathBuf::from("/home/ana"),
        incoming_torrents_dir: PathBuf::from("/data/incoming-torrents"),
    });
    press(&mut app, KeyCode::F(1));
    assert!(app.help_open());
    type_text(&mut app, "abc");
    press(&mut app, KeyCode::Esc);
    type_text(&mut app, "d");
    assert_eq!(app.active_value(app.form_field()), "d");
}

#[test]
fn the_filter_dialog_filters() {
    let mut app = app();
    press(&mut app, KeyCode::Down);
    press(&mut app, KeyCode::Down);
    press(&mut app, KeyCode::Char('/'));
    type_text(&mut app, "xq");
    press(&mut app, KeyCode::Delete);
    type_text(&mut app, "linuxs");
    press(&mut app, KeyCode::Backspace);
    let control = Key { code: KeyCode::Char('a'), control: true, alt: false };
    app.handle_key(control, &env()).unwrap();
    match app.dialog() {
        Some(Dialog::Filter(draft)) => assert_eq!(draft, "linux"),
        other => panic!("{other:?}"),
    }
    assert_eq!(shown(&app), vec![0, 1, 2]);
    press(&mut app, KeyCode::Enter);
    assert!(app.dialog().is_none());
    assert_eq!(app.downloads_view().filter, "linux");
    assert_eq!(shown(&app), vec![1, 2]);
    assert_eq!(app.downloads_selected(), Some(1));
    assert_eq!(app.selected_download().unwrap().id, 2);
    press(&mut app, KeyCode::Down);
    assert_eq!(app.downloads_selected(), Some(1));
}

#[test]
fn a_filter_dialog_that_is_left_changes_nothing() {
    let mut app = app();
    press(&mut app, KeyCode::Char('/'));
    type_text(&mut app, "linux");
    press(&mut app, KeyCode::Esc);
    assert!(app.dialog().is_none());
    assert_eq!(app.downloads_view().filter, "");
    assert_eq!(app.focus(), FocusArea::Content);
    assert_eq!(shown(&app), vec![0, 1, 2]);
}

#[test]
fn the_sort_dialog_sorts() {
    let mut app = app();
    press(&mut app, KeyCode::Char('s'));
    press(&mut app, KeyCode::Up);
    press(&mut app, KeyCode::Down);
    assert!(matches!(app.dialog(), Some(Dialog::Sort(SortBy::Name))));
    assert_eq!(shown(&app), vec![0, 1, 2]);
    press(&mut app, KeyCode::Enter);
    assert_eq!(app.downloads_view().sort, SortBy::Name);
    assert_eq!(shown(&app), vec![1, 2, 0]);
    assert_eq!(app.selected_download().unwrap().name, "arch linux");
    press(&mut app, KeyCode::Char('s'));
    press(&mut app, KeyCode::Down);
    press(&mut app, KeyCode::Esc);
    assert_eq!(app.downloads_view().sort, SortBy::Name);
}

#[test]
fn order_and_view_are_toggled() {
    let mut app = app();
    press(&mut app, KeyCode::Char('r'));
    assert!(app.downloads_view().reversed);
    assert_eq!(shown(&app), vec![2, 1, 0]);
    press(&mut app, KeyCode::Char('r'));
    assert!(!app.downloads_view().reversed);
    assert_eq!(shown(&app), vec![0, 1, 2]);
    press(&mut app, KeyCode::Char('m'));
    assert!(app.downloads_view().compact);
    press(&mut app, KeyCode::Char('m'));
    assert!(!app.downloads_view().compact);
}

#[test]
fn the_filter_is_cleared_after_a_yes() {
    for (answer, cleared) in [
        (KeyCode::Enter, true),
        (KeyCode::Char('y'), true),
        (KeyCode::Esc, false),
        (KeyCode::Char('n'), false),
    ] {
        let mut app = app();
        press(&mut app, KeyCode::Char('/'));
        type_text(&mut app, "linux");
        press(&mut app, KeyCode::Enter);
        press(&mut app, KeyCode::Char('c'));
        assert!(matches!(app.dialog(), Some(Dialog::ConfirmClear)));
        press(&mut app, KeyCode::Char('k'));
        assert!(matches!(app.dialog(), Some(Dialog::ConfirmClear)));
        assert_eq!(app.downloads_view().filter, "linux");
        press(&mut app, answer);
        assert!(app.dialog().is_none());
        assert_eq!(app.downloads_view().filter, if cleared { "" } else { "linux" });
        assert_eq!(shown(&app).len(), if cleared { 3 } else { 2 });
    }
}

#[test]
fn the_view_is_reset() {
    let mut app = app();
    press(&mut app, KeyCode::Char('/'));
    type_text(&mut app, "linux");
    press(&mut app, KeyCode::Enter);
    press(&mut app, KeyCode::Char('s'));
    press(&mut app, KeyCode::Down);
    press(&mut app, KeyCode::Enter);
    type_text(&mut app, "rm");
    assert_eq!(shown(&app), vec![2, 1]);
    press(&mut app, KeyCode::Char('x'));
    let view = app.downloads_view();
    assert_eq!(
        (view.filter.as_str(), view.sort, view.reversed, view.compact),
        ("", SortBy::Number, false, false)
    );
    assert_eq!(shown(&app), vec![0, 1, 2]);
}

#[test]
fn quitting_is_confirmed() {
    for (answer, quits) in [
        (KeyCode::Enter, true),
        (KeyCode::Char('y'), true),
        (KeyCode::Esc, false),
        (KeyCode::Char('n'), false),
    ] {
        let mut app = app();
        press(&mut app, KeyCode::Char('q'));
        assert!(matches!(app.dialog(), Some(Dialog::ConfirmQuit)));
        assert!(!app.should_quit());
        press(&mut app, answer);
        assert!(app.dialog().is_none());
        assert_eq!(app.should_quit(), quits);
    }
}

#[test]
fn letters_work_on_an_empty_list() {
    let mut app = app();
    app.refresh_downloads(Vec::new());
    assert_eq!(app.downloads_selected(), None);
    press(&mut app, KeyCode::Down);
    press(&mut app, KeyCode::Char('m'));
    assert!(app.downloads_view().compact);
    press(&mut app, KeyCode::Char('q'));
    assert!(app.dialog().is_some());
}

#[test]
fn letters_mean_nothing_on_the_menu() {
    let mut app = app();
    press(&mut app, KeyCode::Left);
    type_text(&mut app, "/srmcxq");
    assert!(app.dialog().is_none());
    assert!(!app.downloads_view().reversed && !app.downloads_view().compact);
}

#[test]
fn modified_letters_mean_nothing() {
    let mut app = app();
    for (control, alt) in [(true, false), (false, true), (true, true)] {
        for c in "/srmxq".chars() {
            app.handle_key(Key { code: KeyCode::Char(c), control, alt }, &env()).unwrap();
        }
    }
    app.handle_key(Key { code: KeyCode::Char('c'), control: false, alt: true }, &env()).unwrap();
    assert!(app.dialog().is_none());
    assert!(!app.downloads_view().reversed && !app.downloads_view().compact);
    assert!(!app.should_quit());
}

#[test]
fn refreshing_keeps_the_filter() {
    let mut app = app();
    press(&mut app, KeyCode::Char('/'));
    type_text(&mut app, "linux");
    press(&mut app, KeyCode::Enter);
    press(&mut app, KeyCode::Down);
    let mut more = downloads();
    more.push(download(3, "Linux Mint", 0, 0));
    app.refresh_downloads(more);
    assert_eq!(shown(&app), vec![1, 2, 3]);
    assert_eq!(app.downloads_selected(), Some(1));
    app.refresh_downloads(vec![download(0, "Ubuntu", 7, 30)]);
    assert_eq!(app.downloads_selected(), None);
    assert_eq!(app.downloads().len(), 1);
}
