use rus_torrent::app::{App, KeyOutcome, SubmitRequest, SubmitResult};
use rus_torrent::completion_state::CompletionState;
use rus_torrent::config::AppConfig;
use rus_torrent::engine::{TorrentEngine, TorrentReading, TorrentSnapshot};
use rus_torrent::errors::{AppError, CompletionError, PathError, QueueError, SourceError};
use rus_torrent::form::{
    CompletionDirection, FocusArea, FormField, Key, KeyCode, Screen,
};
use rus_torrent::path_completion::{
    CompletionCandidate, CompletionSet, DirEntry, Listing, PathCompletionMode, ReadFailure,
    UserEnvironment,
};
use rus_torrent::preview::{completion_window, preview_candidates, CompletionPreview, PreviewSource};
use std::path::PathBuf;

fn env() -> UserEnvironment {
    UserEnvironment { home: Ok("/home/ana".to_string()), cwd: Ok(PathBuf::from("/work")) }
}

fn bare_env() -> UserEnvironment {
    UserEnvironment { home: Err("not present".to_string()), cwd: Err("gone".to_string()) }
}

fn app() -> App {
    App::new(AppConfig {
        data_dir: PathBuf::from("/data"),
        default_download_dir: PathBuf::from("/home/ana"),
        incoming_torrents_dir: PathBuf::from("/data/incoming-torrents"),
    })
}

fn plain(code: KeyCode) -> Key {
    Key { code, control: false, alt: false }
}

fn press(app: &mut App, code: KeyCode) -> KeyOutcome {
    app.handle_key(plain(code), &env()).unwrap()
}

fn source(app: &App) -> &str {
    app.active_value(FormField::TorrentSource)
}

fn target(app: &App) -> &str {
    app.active_value(FormField::DownloadDir)
}

fn set_focus(app: &mut App, focus: FocusArea) {
    press(app, if focus == FocusArea::Menu { KeyCode::Left } else { KeyCode::Right });
}

fn go_to(app: &mut App, screen: Screen) {
    press(app, KeyCode::Left);
    while app.current_screen() != screen {
        let below = app.current_screen().index() < screen.index();
        press(app, if below { KeyCode::Down } else { KeyCode::Up });
    }
    press(app, KeyCode::Right);
}

fn type_text(app: &mut App, text: &str) {
    for c in text.chars() {
        assert!(matches!(press(app, KeyCode::Char(c)), KeyOutcome::Handled));
    }
}

fn downloads(count: usize) -> Vec<TorrentSnapshot> {
    let readings: Vec<TorrentReading> = (0..count)
        .map(|id| TorrentReading {
            id,
            name: None,
            state: "live".to_string(),
            progress_bytes: 0,
            total_bytes: 0,
            uploaded_bytes: 0,
            finished: false,
            error: None,
            live: None,
        })
        .collect();
    TorrentEngine::new(&PathBuf::from("/d"), Ok(())).unwrap().list_downloads(&readings)
}

fn dir(name: &str) -> DirEntry {
    DirEntry {
        path: PathBuf::from("/work").join(name),
        name: Some(name.to_string()),
        is_dir: true,
        is_file: false,
    }
}

fn complete(app: &mut App, key: KeyCode, listing: Listing) {
    match press(app, key) {
        KeyOutcome::Complete(request) => app.complete_from_listing(request, &listing).unwrap(),
        other => panic!("{other:?}"),
    }
}

#[test]
fn the_interface_starts_on_the_form() {
    let app = app();
    assert_eq!(app.current_screen(), Screen::AddTorrent);
    assert_eq!(app.focus(), FocusArea::Content);
    assert_eq!(app.form_field(), FormField::TorrentSource);
    assert_eq!(source(&app), "");
    assert_eq!(target(&app), "/home/ana");
    assert_eq!(
        app.status_line(),
        "Incoming folder reserved for a future Telegram bot: /data/incoming-torrents"
    );
    assert!(!app.should_quit());
    assert!(app.downloads().is_empty());
    assert_eq!(app.downloads_selected(), None);
}

#[test]
fn exit_keys_leave_from_everywhere() {
    for focus in [FocusArea::Menu, FocusArea::Content] {
        let mut one = app();
        set_focus(&mut one, focus);
        press(&mut one, KeyCode::F(10));
        assert!(one.should_quit());
        let mut two = app();
        set_focus(&mut two, focus);
        let key = Key { code: KeyCode::Char('c'), control: true, alt: false };
        two.handle_key(key, &env()).unwrap();
        assert!(two.should_quit());
        assert_eq!(source(&two), "");
        let mut three = app();
        set_focus(&mut three, focus);
        press(&mut three, KeyCode::F(9));
        press(&mut three, KeyCode::Char('c'));
        assert!(!three.should_quit());
    }
}

#[test]
fn the_focus_moves_between_menu_and_content() {
    let mut app = app();
    press(&mut app, KeyCode::Left);
    assert_eq!(app.focus(), FocusArea::Menu);
    press(&mut app, KeyCode::Right);
    assert_eq!(app.focus(), FocusArea::Content);
    press(&mut app, KeyCode::Esc);
    assert_eq!(app.focus(), FocusArea::Menu);
    press(&mut app, KeyCode::Enter);
    assert_eq!(app.focus(), FocusArea::Content);
}

#[test]
fn the_menu_stops_at_its_ends() {
    let mut app = app();
    press(&mut app, KeyCode::Left);
    press(&mut app, KeyCode::Up);
    assert_eq!(app.current_screen(), Screen::AddTorrent);
    press(&mut app, KeyCode::Down);
    assert_eq!(app.current_screen(), Screen::Downloads);
    press(&mut app, KeyCode::Down);
    assert_eq!(app.current_screen(), Screen::Server);
    press(&mut app, KeyCode::Down);
    assert_eq!(app.current_screen(), Screen::Server);
    press(&mut app, KeyCode::Up);
    assert_eq!(app.current_screen(), Screen::Downloads);
    type_text(&mut app, "abc");
    assert_eq!(source(&app), "");
}

#[test]
fn screens_have_places_and_titles() {
    for (index, screen) in Screen::all().iter().enumerate() {
        assert_eq!(screen.index(), index);
        assert_eq!(Screen::from_index(index), *screen);
    }
    assert_eq!(Screen::from_index(7), Screen::AddTorrent);
    assert_eq!(Screen::AddTorrent.title(), "Choose torrent source");
    assert_eq!(Screen::Downloads.title(), "Downloads");
    assert_eq!(Screen::Server.title(), "Server");
}

#[test]
fn fields_alternate_between_two() {
    let field = FormField::TorrentSource;
    assert_eq!(field.next(), FormField::DownloadDir);
    assert_eq!(field.next().next(), field);
    assert_eq!(field.previous().next(), field);
    assert_eq!(field.completion_mode(), PathCompletionMode::TorrentFile);
    assert_eq!(field.next().completion_mode(), PathCompletionMode::Directory);
    assert_eq!(field.completion_subject(), "source path");
    assert_eq!(field.next().completion_subject(), "directory path");
    assert_eq!(field.short_title(), "Source");
    assert_eq!(field.next().short_title(), "Directory");
    assert!(!field.supports_local_completion("http://a"));
    assert!(field.next().supports_local_completion("http://a"));
}

#[test]
fn typing_goes_to_the_active_field() {
    let mut app = app();
    type_text(&mut app, "a\u{e9}");
    assert_eq!(source(&app), "a\u{e9}");
    press(&mut app, KeyCode::Backspace);
    assert_eq!(source(&app), "a");
    press(&mut app, KeyCode::Down);
    type_text(&mut app, "/x");
    assert_eq!(target(&app), "/home/ana/x");
    assert_eq!(source(&app), "a");
    press(&mut app, KeyCode::Delete);
    assert_eq!(target(&app), "");
    press(&mut app, KeyCode::Backspace);
    assert_eq!(target(&app), "");
    press(&mut app, KeyCode::Up);
    assert_eq!(app.form_field(), FormField::TorrentSource);
}

#[test]
fn characters_with_modifiers_are_not_typed() {
    let mut app = app();
    for (control, alt) in [(true, false), (false, true)] {
        app.handle_key(Key { code: KeyCode::Char('x'), control, alt }, &env()).unwrap();
    }
    assert_eq!(source(&app), "");
}

#[test]
fn backspace_takes_back_a_typed_character() {
    let mut app = app();
    app.set_active_value(FormField::TorrentSource, "ab".to_string());
    type_text(&mut app, "c");
    press(&mut app, KeyCode::Backspace);
    assert_eq!(source(&app), "ab");
}

#[test]
fn pasted_text_loses_the_line_ends_around_it() {
    let mut app = app();
    app.set_active_value(FormField::TorrentSource, "x".to_string());
    app.handle_paste("\r\n a\nb \n\n");
    assert_eq!(source(&app), "x a\nb ");
    assert_eq!(app.status_line(), "Pasted into Torrent source");
    press(&mut app, KeyCode::Down);
    app.handle_paste("/y");
    assert_eq!(target(&app), "/home/ana/y");
    assert_eq!(app.status_line(), "Pasted into Output directory");
}

#[test]
fn pasted_text_goes_nowhere_else() {
    let mut one = app();
    let status = one.status_line().to_string();
    one.handle_paste("\n\r");
    assert_eq!(one.status_line(), status);
    press(&mut one, KeyCode::Left);
    one.handle_paste("abc");
    assert_eq!(source(&one), "");
    let mut two = app();
    go_to(&mut two, Screen::Downloads);
    two.handle_paste("abc");
    assert_eq!(source(&two), "");
}

#[test]
fn the_selection_follows_the_downloads() {
    let mut app = app();
    app.refresh_downloads(downloads(3));
    assert_eq!(app.downloads_selected(), Some(0));
    go_to(&mut app, Screen::Downloads);
    press(&mut app, KeyCode::Up);
    assert_eq!(app.downloads_selected(), Some(0));
    press(&mut app, KeyCode::Down);
    press(&mut app, KeyCode::Down);
    press(&mut app, KeyCode::Down);
    assert_eq!(app.downloads_selected(), Some(2));
    app.refresh_downloads(downloads(4));
    assert_eq!(app.downloads_selected(), Some(2));
    app.refresh_downloads(downloads(1));
    assert_eq!(app.downloads_selected(), Some(0));
    app.refresh_downloads(downloads(0));
    assert_eq!(app.downloads_selected(), None);
    press(&mut app, KeyCode::Down);
    assert_eq!(app.downloads_selected(), None);
}

#[test]
fn links_are_never_completed() {
    let mut app = app();
    app.set_active_value(FormField::TorrentSource, " http://a ".to_string());
    assert!(matches!(press(&mut app, KeyCode::Tab), KeyOutcome::Handled));
    assert_eq!(source(&app), " http://a ");
    assert_eq!(
        app.status_line(),
        "Local path completion is disabled for HTTP/HTTPS and magnet sources"
    );
}

#[test]
fn completing_asks_for_a_listing() {
    let mut app = app();
    app.set_active_value(FormField::TorrentSource, " ~/fi ".to_string());
    match press(&mut app, KeyCode::BackTab) {
        KeyOutcome::Complete(request) => {
            assert_eq!(request.field, FormField::TorrentSource);
            assert_eq!(request.direction, CompletionDirection::Backward);
            assert_eq!(request.query.seed_input, "~/fi");
            assert_eq!(request.query.lookup.search_dir, PathBuf::from("/home/ana/"));
            assert_eq!(request.query.lookup.raw_dir_prefix, "~/");
            assert_eq!(request.query.lookup.entry_prefix, "fi");
        }
        other => panic!("{other:?}"),
    }
    assert_eq!(source(&app), " ~/fi ");
}

#[test]
fn empty_fields_are_completed_from_the_root() {
    let mut app = app();
    app.set_active_value(FormField::TorrentSource, " ".to_string());
    match app.handle_key(plain(KeyCode::Tab), &bare_env()) {
        Ok(KeyOutcome::Complete(request)) => {
            assert_eq!(request.query.seed_input, "");
            assert_eq!(request.query.lookup.search_dir, PathBuf::from("/"));
            let listing = Listing::Entries(vec![dir("etc")]);
            app.complete_from_listing(request, &listing).unwrap();
            assert_eq!(source(&app), "/etc/");
        }
        other => panic!("{other:?}"),
    }
}

#[test]
fn completing_expands_to_the_common_prefix() {
    let mut app = app();
    type_text(&mut app, "m");
    complete(&mut app, KeyCode::Tab, Listing::Entries(vec![dir("movie1"), dir("movie2")]));
    assert_eq!(source(&app), "movie");
    assert_eq!(app.status_line(), "Expanded to common prefix: movie");
    assert!(app.completion_state().is_none());
}

#[test]
fn completing_cycles_through_candidates() {
    let mut app = app();
    type_text(&mut app, "m");
    complete(&mut app, KeyCode::Tab, Listing::Entries(vec![dir("mb"), dir("ma"), dir("mc")]));
    assert_eq!(source(&app), "ma/");
    assert_eq!(app.status_line(), "source path completion 1/3");
    for (text, status) in [("mb/", "2/3"), ("mc/", "3/3"), ("ma/", "1/3")] {
        assert!(matches!(press(&mut app, KeyCode::Tab), KeyOutcome::Handled));
        assert_eq!(source(&app), text);
        assert_eq!(app.status_line(), format!("source path completion {status}"));
    }
    press(&mut app, KeyCode::BackTab);
    assert_eq!(source(&app), "mc/");
    press(&mut app, KeyCode::Tab);
    assert_eq!(source(&app), "ma/");
    type_text(&mut app, "x");
    assert!(app.completion_state().is_none());
}

#[test]
fn completing_cycles_backward_too() {
    let mut app = app();
    type_text(&mut app, "m");
    complete(&mut app, KeyCode::BackTab, Listing::Entries(vec![dir("ma"), dir("mb"), dir("mc")]));
    for text in ["mc/", "mb/", "ma/", "mc/"] {
        assert_eq!(source(&app), text);
        press(&mut app, KeyCode::BackTab);
    }
}

#[test]
fn completing_backward_starts_at_the_last_candidate() {
    let mut app = app();
    type_text(&mut app, "m");
    complete(&mut app, KeyCode::BackTab, Listing::Entries(vec![dir("ma"), dir("mb")]));
    assert_eq!(source(&app), "mb/");
    assert_eq!(app.status_line(), "source path completion 2/2");
}

#[test]
fn one_candidate_is_put_into_the_field() {
    let mut app = app();
    press(&mut app, KeyCode::Down);
    app.set_active_value(FormField::DownloadDir, "mo".to_string());
    complete(&mut app, KeyCode::Tab, Listing::Entries(vec![dir("movies"), dir("x")]));
    assert_eq!(target(&app), "movies/");
    assert_eq!(app.status_line(), "directory path completion 1/1");
    assert_eq!(app.completion_state().unwrap().seed_input, "mo");
}

#[test]
fn nothing_to_complete_is_told() {
    let mut app = app();
    type_text(&mut app, "zzz");
    complete(&mut app, KeyCode::Tab, Listing::NotADirectory);
    assert_eq!(source(&app), "zzz");
    assert_eq!(app.status_line(), "No source path matches found");
}

#[test]
fn completing_fails_where_paths_do() {
    let mut app = app();
    app.set_active_value(FormField::TorrentSource, "~/x".to_string());
    match app.handle_key(plain(KeyCode::Tab), &bare_env()) {
        Err(AppError::Completion(CompletionError::Path(PathError::HomeNotSet { .. }))) => {}
        other => panic!("{other:?}"),
    }
    match app.handle_key(plain(KeyCode::Tab), &env()) {
        Ok(KeyOutcome::Complete(request)) => {
            let listing =
                Listing::Failed { failure: ReadFailure::Other, detail: "broken".to_string() };
            let error = app.complete_from_listing(request, &listing).unwrap_err();
            assert_eq!(
                error.chain(),
                vec!["failed to read completion directory /home/ana/", "broken"]
            );
        }
        other => panic!("{other:?}"),
    }
    assert_eq!(source(&app), "~/x");
}

fn state(selected: usize) -> CompletionState {
    CompletionState {
        field: FormField::DownloadDir,
        seed_input: "a".to_string(),
        candidates: ["a1", "a2", "a3"]
            .iter()
            .map(|text| CompletionCandidate { replacement: text.to_string(), is_dir: true })
            .collect(),
        selected,
    }
}

#[test]
fn steps_go_around_and_back() {
    let mut state = state(2);
    assert_eq!(state.current_replacement(), "a3");
    state.step(CompletionDirection::Forward);
    assert_eq!(state.selected, 0);
    state.step(CompletionDirection::Backward);
    assert_eq!(state.selected, 2);
    for _ in 0..3 {
        state.step(CompletionDirection::Forward);
    }
    assert_eq!(state.selected, 2);
}

#[test]
fn steps_belong_to_their_field_and_text() {
    let state = state(1);
    assert!(state.can_continue(FormField::DownloadDir, "a"));
    assert!(state.can_continue(FormField::DownloadDir, "a2"));
    assert!(!state.can_continue(FormField::DownloadDir, "a1"));
    assert!(!state.can_continue(FormField::TorrentSource, "a"));
    let empty = CompletionState { candidates: Vec::new(), ..state };
    assert!(!empty.can_continue(FormField::DownloadDir, "a"));
}

#[test]
fn submitting_asks_to_queue() {
    let mut app = app();
    app.set_active_value(FormField::TorrentSource, " magnet:?x ".to_string());
    app.set_active_value(FormField::DownloadDir, " out ".to_string());
    match press(&mut app, KeyCode::Enter) {
        KeyOutcome::Submit(request) => {
            assert_eq!(request.source_input, "magnet:?x");
            assert_eq!(request.download_dir, PathBuf::from("/work/out"));
        }
        other => panic!("{other:?}"),
    }
    app.set_active_value(FormField::DownloadDir, " ".to_string());
    match app.handle_key(plain(KeyCode::Enter), &env()) {
        Err(AppError::OutputDirectory(PathError::Empty)) => {}
        other => panic!("{other:?}"),
    }
}

#[test]
fn queued_torrents_bring_up_the_downloads() {
    let mut app = app();
    app.set_active_value(FormField::TorrentSource, "magnet:?x".to_string());
    let request = SubmitRequest {
        source_input: "magnet:?x".to_string(),
        download_dir: PathBuf::from("/out"),
    };
    app.finish_submit(&request, SubmitResult::Queued { id: 12, downloads: downloads(2) });
    assert_eq!(app.status_line(), "Torrent #12 queued: magnet:?x -> /out");
    assert_eq!(source(&app), "");
    assert_eq!(app.current_screen(), Screen::Downloads);
    assert_eq!(app.focus(), FocusArea::Content);
    assert_eq!(app.downloads().len(), 2);
    assert_eq!(app.downloads_selected(), Some(0));
}

#[test]
fn torrents_that_were_not_queued_leave_the_form() {
    let mut app = app();
    app.set_active_value(FormField::TorrentSource, " ".to_string());
    let request =
        SubmitRequest { source_input: String::new(), download_dir: PathBuf::from("/out") };
    let failed = SubmitResult::Failed(QueueError::Source(SourceError::Empty));
    app.finish_submit(&request, failed);
    assert_eq!(app.status_line(), "Failed to queue torrent: torrent source is empty");
    assert_eq!(source(&app), " ");
    assert_eq!(app.current_screen(), Screen::AddTorrent);
}

#[test]
fn windows_show_the_selected_completion() {
    assert_eq!(completion_window(5, Some(4)), (0, 5));
    assert_eq!(completion_window(8, None), (0, 8));
    assert_eq!(completion_window(20, None), (0, 8));
    assert_eq!(completion_window(20, Some(2)), (0, 8));
    assert_eq!(completion_window(20, Some(10)), (6, 14));
    assert_eq!(completion_window(20, Some(19)), (12, 20));
    assert_eq!(completion_window(20, Some(usize::MAX)), (12, 20));
}

fn many(count: usize) -> Vec<CompletionCandidate> {
    (0..count)
        .map(|i| CompletionCandidate { replacement: format!("c{i}"), is_dir: false })
        .collect()
}

#[test]
fn previews_mark_the_selected_completion() {
    let preview = preview_candidates(&many(20), Some(10));
    assert_eq!(preview.start_index, 6);
    assert_eq!(preview.total_matches, 20);
    assert_eq!(preview.candidates.len(), 8);
    assert_eq!(preview.candidates[preview.selected.unwrap()].replacement, "c10");
}

fn ready(source: PreviewSource) -> CompletionPreview {
    match source {
        PreviewSource::Ready(preview) => preview,
        PreviewSource::Lookup(query) => panic!("{query:?}"),
    }
}

#[test]
fn previews_come_from_what_is_known() {
    let mut app = app();
    app.set_active_value(FormField::TorrentSource, "magnet:".to_string());
    let preview = ready(app.completion_preview(&env()).unwrap());
    assert!(preview.candidates.is_empty());
    assert_eq!((preview.selected, preview.start_index, preview.total_matches), (None, 0, 0));

    press(&mut app, KeyCode::Down);
    app.set_active_value(FormField::DownloadDir, "a".to_string());
    let CompletionState { field, seed_input, candidates, .. } = state(0);
    let set = CompletionSet { seed_input, candidates };
    app.apply_candidates(field, CompletionDirection::Forward, set);
    press(&mut app, KeyCode::Tab);
    app.set_active_value(FormField::DownloadDir, " a2 ".to_string());
    let preview = ready(app.completion_preview(&env()).unwrap());
    assert_eq!(preview.selected, Some(1));
    assert_eq!(preview.total_matches, 3);
}

#[test]
fn previews_come_from_listings() {
    let mut app = app();
    app.set_active_value(FormField::TorrentSource, "m".to_string());
    match app.completion_preview(&env()).unwrap() {
        PreviewSource::Lookup(query) => {
            let listing = Listing::Entries(vec![dir("mb"), dir("ma"), dir("x")]);
            let preview = app.preview_from_listing(query, &listing).unwrap();
            assert_eq!(preview.selected, None);
            assert_eq!(preview.total_matches, 2);
            assert_eq!(preview.candidates[0].replacement, "ma/");
        }
        PreviewSource::Ready(preview) => panic!("{preview:?}"),
    }
    match app.completion_preview(&bare_env()) {
        Err(CompletionError::Path(PathError::NoWorkingDirectory { .. })) => {}
        other => panic!("{other:?}"),
    }
}
