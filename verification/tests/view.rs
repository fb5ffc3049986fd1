use rus_torrent::app::App;
use rus_torrent::config::AppConfig;
use rus_torrent::downloads_view::{Dialog, SortBy};
use rus_torrent::engine::TorrentSnapshot;
use rus_torrent::errors::{CompletionError, PathError};
use rus_torrent::form::{FormField, Key, KeyCode};
use rus_torrent::path_completion::{CompletionCandidate, UserEnvironment};
use rus_torrent::preview::preview_candidates;
use rus_torrent::view::{border, help_lines, PanelView, Tone};
use std::path::PathBuf;

fn app() -> App {
    App::new(AppConfig {
        data_dir: PathBuf::from("/data"),
        default_download_dir: PathBuf::from("/home/ana"),
        incoming_torrents_dir: PathBuf::from("/data/incoming-torrents"),
    })
}

fn press(app: &mut App, code: KeyCode) {
    let env =
        UserEnvironment { home: Ok("/home/ana".to_string()), cwd: Ok(PathBuf::from("/work")) };
    app.handle_key(Key { code, control: false, alt: false }, &env).unwrap();
}

fn go_to_downloads(app: &mut App) {
    press(app, KeyCode::Left);
    press(app, KeyCode::Down);
    press(app, KeyCode::Right);
}

fn candidates(count: usize) -> Vec<CompletionCandidate> {
    (0..count)
        .map(|i| CompletionCandidate { replacement: format!("c{i}"), is_dir: i == 0 })
        .collect()
}

fn download() -> TorrentSnapshot {
    TorrentSnapshot {
        id: 3,
        name: "film".to_string(),
        state: "live".to_string(),
        progress_bytes: 1024,
        total_bytes: 2048,
        uploaded_bytes: 10,
        finished: false,
        error: None,
        download_speed: Some("1.00 MiB/s".to_string()),
        upload_speed: None,
        live_peers: 5,
        connecting_peers: 6,
        seen_peers: 7,
        source: "magnet:?x".to_string(),
        output_dir: PathBuf::from("/out"),
    }
}

#[test]
fn borders_tell_where_keys_go() {
    assert_eq!(border(true), Tone::Yellow);
    assert_eq!(border(false), Tone::DarkGray);
}

#[test]
fn header_and_footer_tell_the_state() {
    let mut app = app();
    assert_eq!(app.header_focus(), "focus: content");
    app.handle_paste("x");
    press(&mut app, KeyCode::Left);
    assert_eq!(app.header_focus(), "focus: menu");
    assert_eq!(
        app.footer_lines(),
        vec![
            "Pasted into Torrent source",
            "Left/Right focus | Tab local completion | Up/Down switch field | Enter add torrent | Esc menu | Ctrl+C/F10 exit",
        ]
    );
    press(&mut app, KeyCode::Down);
    assert_eq!(
        app.footer_lines()[1],
        "Left/Right focus | Up/Down select torrent | / filter | s sort | r reverse | m compact | c clear filter | x reset view | q quit | Esc menu | F1 help | Ctrl+C/F10 exit"
    );
    press(&mut app, KeyCode::Down);
    assert_eq!(app.footer_lines()[1], "Left/Right focus | Esc menu | Ctrl+C/F10 exit");
}

#[test]
fn empty_fields_show_their_placeholder() {
    let mut app = app();
    let view = app.input_view(FormField::TorrentSource);
    assert_eq!(view.title, "Torrent source");
    assert!(view.is_placeholder);
    assert_eq!(view.text, "Example: ./movie.torrent, https://site/file.torrent, or magnet:?...");
    assert_eq!(view.border, Tone::Yellow);
    let other = app.input_view(FormField::DownloadDir);
    assert!(!other.is_placeholder);
    assert_eq!(other.text, "/home/ana");
    assert_eq!(other.border, Tone::DarkGray);
    app.set_active_value(FormField::DownloadDir, String::new());
    press(&mut app, KeyCode::Down);
    press(&mut app, KeyCode::Left);
    let other = app.input_view(FormField::DownloadDir);
    assert_eq!(other.text, "Example: ~/downloads");
    assert_eq!(other.border, Tone::DarkGray);
}

#[test]
fn advice_stands_where_nothing_is_completed() {
    let mut app = app();
    assert_eq!(app.completion_empty_text()[0], "This field accepts three source types:");
    assert_eq!(app.completion_empty_text().len(), 6);
    app.set_active_value(FormField::TorrentSource, " magnet:".to_string());
    assert_eq!(
        app.completion_empty_text()[0],
        "This field currently contains a URL or magnet link."
    );
    press(&mut app, KeyCode::Down);
    app.set_active_value(FormField::DownloadDir, "http://a".to_string());
    assert_eq!(app.completion_empty_text()[2], "Only directories are listed here.");
}

#[test]
fn panels_list_completions() {
    let app = app();
    match app.completion_panel(&Ok(preview_candidates(&candidates(2), Some(1)))) {
        PanelView::Listed { title, rows, selected } => {
            assert_eq!(title, "Source Completion (2)");
            assert_eq!(selected, Some(1));
            assert_eq!(rows[0].replacement, "c0");
            assert_eq!(rows[0].label, "[dir]");
            assert_eq!(rows[0].tone, Tone::Green);
            assert_eq!(rows[1].label, "[torrent]");
            assert_eq!(rows[1].tone, Tone::Blue);
        }
        other => panic!("{other:?}"),
    }
    match app.completion_panel(&Ok(preview_candidates(&candidates(20), Some(10)))) {
        PanelView::Listed { title, rows, selected } => {
            assert_eq!(title, "Source Completion (showing 7-14 of 20)");
            assert_eq!(rows.len(), 8);
            assert_eq!(selected, Some(4));
        }
        other => panic!("{other:?}"),
    }
}

#[test]
fn panels_tell_what_is_missing() {
    let mut app = app();
    press(&mut app, KeyCode::Down);
    match app.completion_panel(&Ok(preview_candidates(&Vec::new(), None))) {
        PanelView::Empty { title, lines } => {
            assert_eq!(title, "Directory Completion");
            assert_eq!(lines.len(), 3);
        }
        other => panic!("{other:?}"),
    }
    let error = CompletionError::Path(PathError::HomeNotSet { detail: "none".to_string() });
    match app.completion_panel(&Err(error)) {
        PanelView::Unavailable { title, lines } => {
            assert_eq!(title, "Path Completion");
            assert_eq!(
                lines,
                vec!["Autocomplete is currently unavailable.", "HOME is not set: none"]
            );
        }
        other => panic!("{other:?}"),
    }
}

#[test]
fn help_names_the_active_field() {
    let app = app();
    let lines = app.controls_lines();
    assert_eq!(lines.len(), 8);
    assert_eq!(lines[0], "Active field: Torrent source");
    assert_eq!(lines[7], "Esc: return to menu");
    assert_eq!(
        app.server_prep_lines()[0],
        "Incoming .torrent folder: /data/incoming-torrents"
    );
    let server = app.server_lines();
    assert_eq!(server.len(), 8);
    assert_eq!(server[2], "Data directory: /data");
    assert_eq!(server[3], "Default download directory: /home/ana");
    assert_eq!(server[4], "Incoming .torrent directory: /data/incoming-torrents");
}

#[test]
fn downloads_are_shown_as_rows() {
    let mut download = download();
    assert_eq!(
        download.row_lines("50.0", false),
        vec!["film", "#3  live  50.0%", "\u{2193} 1.00 MiB/s  peers 5"]
    );
    assert_eq!(download.row_lines("50.0", true), vec!["#3  film  50.0%"]);
    download.download_speed = None;
    assert_eq!(download.row_lines("50.0", false)[2], "\u{2193} n/a  peers 5");
}

#[test]
fn downloads_are_shown_in_detail() {
    let mut download = download();
    assert_eq!(download.gauge_label(), "1.0 KiB / 2.0 KiB");
    assert_eq!(
        download.stats_lines(),
        vec![
            "State: live",
            "Finished: no",
            "Downloaded: 1.0 KiB",
            "Uploaded: 10 B",
            "Download speed: 1.00 MiB/s",
            "Upload speed: n/a",
            "Peers: 5",
            "Connecting: 6",
            "Seen peers: 7",
            "Seeds: unavailable in current librqbit torrent stats",
            "Size: 2.0 KiB",
            "Error: none",
        ]
    );
    assert_eq!(download.path_lines(), vec!["Source: magnet:?x", "Output dir: /out"]);
    download.total_bytes = 0;
    download.finished = true;
    download.error = Some("disk".to_string());
    assert_eq!(download.gauge_label(), "Waiting for metadata");
    assert_eq!(download.stats_lines()[1], "Finished: yes");
    assert_eq!(download.stats_lines()[10], "Size: unknown");
    assert_eq!(download.stats_lines()[11], "Error: disk");
}

#[test]
fn the_selected_download_is_shown_in_detail() {
    let mut app = app();
    assert!(app.selected_download().is_none());
    assert_eq!(
        app.no_downloads_lines(),
        vec!["No torrents have been added yet.", "Open 'Choose torrent source' and queue a source."]
    );
    let mut second = download();
    second.id = 4;
    app.refresh_downloads(vec![download(), second]);
    assert_eq!(app.selected_download().unwrap().id, 3);
    go_to_downloads(&mut app);
    press(&mut app, KeyCode::Down);
    assert_eq!(app.selected_download().unwrap().id, 4);
    press(&mut app, KeyCode::Char('r'));
    assert_eq!(app.selected_download().unwrap().id, 3);
}

#[test]
fn a_filter_that_keeps_nothing_is_told() {
    let mut app = app();
    app.refresh_downloads(vec![download()]);
    go_to_downloads(&mut app);
    for code in [KeyCode::Char('/'), KeyCode::Char('z'), KeyCode::Enter] {
        press(&mut app, code);
    }
    assert!(app.shown_downloads().is_empty());
    assert!(app.selected_download().is_none());
    assert_eq!(
        app.no_downloads_lines(),
        vec!["No torrents match the filter.", "Press c to clear the filter."]
    );
}

#[test]
fn help_tells_the_keys() {
    let lines = help_lines();
    assert_eq!(lines.len(), 19);
    for line in [
        "F1: open help",
        "F10 or Ctrl+C: force exit",
        "/: open filter dialog",
        "s: open sort dialog",
        "r: reverse sort order",
        "m: toggle compact/expanded view",
        "c: clear filter with confirmation",
        "x: reset downloads view",
        "q: quit with confirmation",
        "Esc or Enter: close help",
    ] {
        assert!(lines.contains(&line.to_string()), "{line}");
    }
}

#[test]
fn dialogs_tell_what_they_ask() {
    let filter = Dialog::Filter("fi".to_string());
    assert_eq!(filter.title(), "Filter downloads");
    assert_eq!(
        filter.lines(),
        vec!["Name holds: fi", "Enter apply | Delete empty | Esc cancel"]
    );
    let sort = Dialog::Sort(SortBy::Size);
    assert_eq!(sort.title(), "Sort downloads");
    assert_eq!(
        sort.lines(),
        vec![
            "  Number",
            "  Name",
            "> Size",
            "  Downloaded",
            "Up/Down choose | Enter apply | Esc cancel",
        ]
    );
    assert_eq!(Dialog::ConfirmClear.title(), "Clear filter");
    assert_eq!(Dialog::ConfirmClear.lines()[0], "Clear the filter and show all downloads?");
    assert_eq!(Dialog::ConfirmQuit.title(), "Quit");
    assert_eq!(Dialog::ConfirmQuit.lines(), vec!["Quit the program?", "Enter/y yes | Esc/n no"]);
}
