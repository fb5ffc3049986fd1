//! What holds of the keys of the terminal interface.
use crate::app::{effect_of, App, AppModel, KeyOutcome};
use crate::downloads_view::{DialogModel, DownloadsViewModel, SortBy};
use crate::engine::TorrentSnapshot;
use crate::errors::{AppError, CompletionError, PathError};
use crate::form::{CompletionDirection, FocusArea, FormField, Key, KeyCode, Screen};
use crate::laws::list::{count_left, lemma_count_left};
use crate::laws::session::{begins_as_a_magnet_link, begins_as_a_url, lemma_schemes};
use crate::laws::texts::{
    is_bare_part, is_decimal, lemma_bare_part, lemma_decimal_reads_back, number_read,
};
use crate::path_completion::{resolve_user_path, Lookup, UserEnvironment};
use crate::paths::path_bytes;
use crate::text::{decimal_text, is_line_end, trimmed, trimming_is_idempotent, without_ends};
use std::path::PathBuf;
use vstd::prelude::*;
use vstd::string::*;

verus! {

/// Whether a key leaves nothing to be done outside.
pub open spec fn is_handled(res: Result<KeyOutcome, AppError>) -> bool {
    res is Ok && res->Ok_0 is Handled
}

/// Whether a key is F10, or C with Control.
pub open spec fn is_exit(key: Key) -> bool {
    key.code == KeyCode::F(10) || (key.control && key.code == KeyCode::Char('c'))
}

/// Whether a key goes past the help and the dialogs.
pub open spec fn goes_through(app: AppModel, key: Key) -> bool {
    !is_exit(key) && key.code != KeyCode::F(1) && !app.help_open && app.dialog is None
}

/// Whether a key goes to a dialog.
pub open spec fn goes_to_the_dialog(app: AppModel, key: Key) -> bool {
    !is_exit(key) && key.code != KeyCode::F(1) && !app.help_open && app.dialog is Some
}

/// Whether a key goes to what a screen shows.
pub open spec fn goes_to(app: AppModel, key: Key, screen: Screen) -> bool {
    &&& goes_through(app, key)
    &&& app.focus == FocusArea::Content
    &&& app.screen == screen
    &&& key.code != KeyCode::Left
    &&& key.code != KeyCode::Right
    &&& key.code != KeyCode::Esc
}

/// A selection in a list of some length: where it was as far as the list goes, on the last one
/// behind its end, on the first one where there was none, and none in an empty list.
pub open spec fn kept_within(selected: Option<usize>, length: nat) -> Option<usize> {
    if length == 0 {
        None
    } else if selected is None {
        Some(0)
    } else if selected->0 < length {
        selected
    } else {
        Some((length - 1) as usize)
    }
}

/// The state with a filter, a sort key, an order and a view of the list.
pub open spec fn showing(app: AppModel, view: DownloadsViewModel) -> AppModel {
    AppModel {
        downloads_view: view,
        downloads_selected: kept_within(
            app.downloads_selected,
            count_left(app.downloads, view.filter),
        ),
        ..app
    }
}

// ---------------------------------------------------------------------------------------------
// Keys that work everywhere
// ---------------------------------------------------------------------------------------------

/// F10, or C with Control, ends the program from every state; nothing else changes.
pub proof fn exit_keys_end_the_program(
    app: &mut App,
    key: Key,
    env: &UserEnvironment,
    res: Result<KeyOutcome, AppError>,
)
    requires
        call_ensures(App::handle_key, (app, key, env), res),
        is_exit(key),
    ensures
        final(app)@ == (AppModel { should_quit: true, ..old(app)@ }),
        is_handled(res),
{
}

/// No other key ends the program, but for Enter or `y` at the question whether to.
pub proof fn the_program_ends_only_when_asked(
    app: &mut App,
    key: Key,
    env: &UserEnvironment,
    res: Result<KeyOutcome, AppError>,
)
    requires
        call_ensures(App::handle_key, (app, key, env), res),
        !is_exit(key),
        !(old(app)@.dialog == Some(DialogModel::ConfirmQuit) && !old(app)@.help_open && (key.code
            == KeyCode::Enter || key.code == KeyCode::Char('y'))),
    ensures
        final(app)@.should_quit == old(app)@.should_quit,
{
}

/// F1 opens the help from every state; nothing else changes.
pub proof fn f1_shows_the_help(
    app: &mut App,
    key: Key,
    env: &UserEnvironment,
    res: Result<KeyOutcome, AppError>,
)
    requires
        call_ensures(App::handle_key, (app, key, env), res),
        key.code == KeyCode::F(1),
    ensures
        final(app)@ == (AppModel { help_open: true, ..old(app)@ }),
        is_handled(res),
{
}

/// While the help is open, Esc and Enter close it, and no other key but an exit key does anything.
pub proof fn the_help_is_closed_by_esc_or_enter(
    app: &mut App,
    key: Key,
    env: &UserEnvironment,
    res: Result<KeyOutcome, AppError>,
)
    requires
        call_ensures(App::handle_key, (app, key, env), res),
        old(app)@.help_open,
        !is_exit(key),
    ensures
        is_handled(res),
        key.code == KeyCode::Esc || key.code == KeyCode::Enter ==> final(app)@ == (AppModel {
            help_open: false,
            ..old(app)@
        }),
        key.code != KeyCode::Esc && key.code != KeyCode::Enter ==> final(app)@ == old(app)@,
{
}

/// Left and Esc give the focus to the menu, and Right to the content; nothing else changes.
pub proof fn the_focus_follows_left_and_right(
    app: &mut App,
    key: Key,
    env: &UserEnvironment,
    res: Result<KeyOutcome, AppError>,
)
    requires
        call_ensures(App::handle_key, (app, key, env), res),
        goes_through(old(app)@, key),
    ensures
        key.code == KeyCode::Left || key.code == KeyCode::Esc ==> final(app)@ == (AppModel {
            focus: FocusArea::Menu,
            ..old(app)@
        }) && is_handled(res),
        key.code == KeyCode::Right ==> final(app)@ == (AppModel {
            focus: FocusArea::Content,
            ..old(app)@
        }) && is_handled(res),
{
}

/// On the menu, Up and Down go from screen to screen as far as there are screens, Enter goes to the
/// content, and no other key does anything.
pub proof fn the_menu_goes_from_screen_to_screen(
    app: &mut App,
    key: Key,
    env: &UserEnvironment,
    res: Result<KeyOutcome, AppError>,
    place: int,
)
    requires
        call_ensures(App::handle_key, (app, key, env), res),
        goes_through(old(app)@, key),
        old(app)@.focus == FocusArea::Menu,
        key.code != KeyCode::Left && key.code != KeyCode::Right && key.code != KeyCode::Esc,
        0 <= place < 3,
        old(app)@.screen == seq![Screen::AddTorrent, Screen::Downloads, Screen::Server][place],
    ensures
        ({
            let screens = seq![Screen::AddTorrent, Screen::Downloads, Screen::Server];
            &&& is_handled(res)
            &&& key.code == KeyCode::Up ==> final(app)@ == (AppModel {
                screen: screens[if place == 0 {
                    0
                } else {
                    place - 1
                }],
                ..old(app)@
            })
            &&& key.code == KeyCode::Down ==> final(app)@ == (AppModel {
                screen: screens[if place == 2 {
                    2
                } else {
                    place + 1
                }],
                ..old(app)@
            })
            &&& key.code == KeyCode::Enter ==> final(app)@ == (AppModel {
                focus: FocusArea::Content,
                ..old(app)@
            })
            &&& key.code != KeyCode::Up && key.code != KeyCode::Down && key.code
                != KeyCode::Enter ==> final(app)@ == old(app)@
        }),
{
}

/// On the screen of the server no key does anything.
pub proof fn keys_do_nothing_to_the_server(
    app: &mut App,
    key: Key,
    env: &UserEnvironment,
    res: Result<KeyOutcome, AppError>,
)
    requires
        call_ensures(App::handle_key, (app, key, env), res),
        goes_to(old(app)@, key, Screen::Server),
    ensures
        final(app)@ == old(app)@,
        is_handled(res),
{
}

// ---------------------------------------------------------------------------------------------
// The list of downloads
// ---------------------------------------------------------------------------------------------

/// On the list, Up goes to the download above and Down to the one below, as far as there are any in
/// the list; nothing else changes.
pub proof fn up_and_down_move_in_the_list(
    app: &mut App,
    key: Key,
    env: &UserEnvironment,
    res: Result<KeyOutcome, AppError>,
)
    requires
        call_ensures(App::handle_key, (app, key, env), res),
        goes_to(old(app)@, key, Screen::Downloads),
    ensures
        ({
            let shown = count_left(old(app)@.downloads, old(app)@.downloads_view.filter);
            let selected = old(app)@.downloads_selected;
            &&& key.code == KeyCode::Up || key.code == KeyCode::Down ==> is_handled(res)
            &&& key.code == KeyCode::Up && selected is Some && selected->0 > 0 ==> final(app)@
                == (AppModel {
                downloads_selected: Some((selected->0 - 1) as usize),
                ..old(app)@
            })
            &&& key.code == KeyCode::Up && selected == Some(0usize) ==> final(app)@ == old(app)@
            &&& key.code == KeyCode::Down && selected is Some && selected->0 + 1 < shown
                ==> final(app)@.downloads_selected is Some && final(app)@.downloads_selected->0
                == selected->0 + 1 && final(app)@ == (AppModel {
                downloads_selected: final(app)@.downloads_selected,
                ..old(app)@
            })
            &&& key.code == KeyCode::Down && selected is Some && selected->0 + 1 >= shown
                ==> final(app)@ == old(app)@
            &&& selected is None && (key.code == KeyCode::Up || key.code == KeyCode::Down)
                ==> final(app)@ == old(app)@
        }),
{
    let before = old(app)@;
    lemma_count_left(before.downloads, before.downloads_view.filter);
    assert(before.downloads.len() == old(app).downloads.len());
    if before.downloads_selected == Some(0usize) && key.code == KeyCode::Up {
        assert(final(app)@ =~= before);
    }
    if before.downloads_selected is Some && key.code == KeyCode::Down
        && before.downloads_selected->0 + 1 >= before.shown_count() {
        assert(final(app)@ =~= before);
    }
}

/// Down and then Up give the state back where there is a download below, and Up and then Down where
/// there is one above.
pub proof fn up_and_down_undo_each_other(
    app: AppModel,
    down: Key,
    up: Key,
    env: UserEnvironment,
)
    requires
        down.code == KeyCode::Down,
        up.code == KeyCode::Up,
        goes_to(app, down, Screen::Downloads),
        app.downloads_selected is Some,
        app.downloads_selected->0 < count_left(
            app.downloads,
            app.downloads_view.filter,
        ) <= usize::MAX,
    ensures
        app.downloads_selected->0 + 1 < count_left(app.downloads, app.downloads_view.filter)
            ==> app.after_key(down, env).0.after_key(up, env).0 == app && app.after_key(
            down,
            env,
        ).0 != app,
        app.downloads_selected->0 > 0 ==> app.after_key(up, env).0.after_key(down, env).0 == app
            && app.after_key(up, env).0 != app,
{
    lemma_count_left(app.downloads, app.downloads_view.filter);
    if app.downloads_selected->0 + 1 < app.shown_count() {
        assert(app.after_key(down, env).0.after_key(up, env).0 =~= app);
    }
    if app.downloads_selected->0 > 0 {
        assert(app.after_key(up, env).0.after_key(down, env).0 =~= app);
    }
}

/// The letters of the list: `/`, `s`, `c` and `q` open their dialogs, the filter and the sort key
/// being those of the list; `r` reverses the order, `m` changes the view, and `x` sets all back.
pub proof fn letters_change_the_list(
    app: &mut App,
    key: Key,
    env: &UserEnvironment,
    res: Result<KeyOutcome, AppError>,
    c: char,
)
    requires
        call_ensures(App::handle_key, (app, key, env), res),
        goes_to(old(app)@, key, Screen::Downloads),
        key.code == KeyCode::Char(c),
    ensures
        ({
            let before = old(app)@;
            let view = before.downloads_view;
            let plain = !key.control && !key.alt;
            &&& is_handled(res)
            &&& plain && c == '/' ==> final(app)@ == (AppModel {
                dialog: Some(DialogModel::Filter(view.filter)),
                ..before
            })
            &&& plain && c == 's' ==> final(app)@ == (AppModel {
                dialog: Some(DialogModel::Sort(view.sort)),
                ..before
            })
            &&& plain && c == 'c' ==> final(app)@ == (AppModel {
                dialog: Some(DialogModel::ConfirmClear),
                ..before
            })
            &&& plain && c == 'q' ==> final(app)@ == (AppModel {
                dialog: Some(DialogModel::ConfirmQuit),
                ..before
            })
            &&& plain && c == 'r' ==> final(app)@ == showing(
                before,
                DownloadsViewModel { reversed: !view.reversed, ..view },
            )
            &&& plain && c == 'm' ==> final(app)@ == showing(
                before,
                DownloadsViewModel { compact: !view.compact, ..view },
            )
            &&& plain && c == 'x' ==> final(app)@ == showing(
                before,
                DownloadsViewModel {
                    filter: Seq::empty(),
                    sort: SortBy::Number,
                    reversed: false,
                    compact: false,
                },
            )
            &&& !plain || (c != '/' && c != 's' && c != 'c' && c != 'q' && c != 'r' && c != 'm'
                && c != 'x') ==> final(app)@ == before
        }),
{
    let before = old(app)@;
    lemma_count_left(before.downloads, before.downloads_view.filter);
    lemma_count_left(before.downloads, Seq::empty());
}

/// No other key does anything to the list.
pub proof fn other_keys_leave_the_list(
    app: &mut App,
    key: Key,
    env: &UserEnvironment,
    res: Result<KeyOutcome, AppError>,
)
    requires
        call_ensures(App::handle_key, (app, key, env), res),
        goes_to(old(app)@, key, Screen::Downloads),
        key.code != KeyCode::Up && key.code != KeyCode::Down && !(key.code is Char),
    ensures
        final(app)@ == old(app)@,
        is_handled(res),
{
}

/// Taking the torrents of the session leaves the selection where it is as far as they are shown,
/// and changes nothing else.
pub proof fn refreshing_takes_the_downloads(app: &mut App, downloads: Vec<TorrentSnapshot>)
    requires
        call_ensures(App::refresh_downloads, (app, downloads), ()),
    ensures
        final(app)@ == (AppModel {
            downloads: downloads@,
            downloads_selected: kept_within(
                old(app)@.downloads_selected,
                count_left(downloads@, old(app)@.downloads_view.filter),
            ),
            ..old(app)@
        }),
{
    lemma_count_left(downloads@, old(app)@.downloads_view.filter);
}

// ---------------------------------------------------------------------------------------------
// Dialogs
// ---------------------------------------------------------------------------------------------

/// In the filter dialog text is typed behind what is there, Backspace takes back the last character
/// and Delete all of them; Enter filters by it, and Esc leaves the list as it is.
pub proof fn the_filter_is_typed_and_taken(
    app: &mut App,
    key: Key,
    env: &UserEnvironment,
    res: Result<KeyOutcome, AppError>,
    draft: Seq<char>,
)
    requires
        call_ensures(App::handle_key, (app, key, env), res),
        goes_to_the_dialog(old(app)@, key),
        old(app)@.dialog == Some(DialogModel::Filter(draft)),
    ensures
        ({
            let before = old(app)@;
            let closed = AppModel { dialog: None, ..before };
            &&& is_handled(res)
            &&& key.code == KeyCode::Enter ==> final(app)@ == showing(
                closed,
                DownloadsViewModel { filter: draft, ..before.downloads_view },
            )
            &&& key.code == KeyCode::Esc ==> final(app)@ == closed
            &&& key.code == KeyCode::Backspace && draft.len() > 0 ==> final(app)@ == (AppModel {
                dialog: Some(DialogModel::Filter(draft.take(draft.len() - 1))),
                ..before
            })
            &&& key.code == KeyCode::Backspace && draft.len() == 0 ==> final(app)@ == before
            &&& key.code == KeyCode::Delete ==> final(app)@ == (AppModel {
                dialog: Some(DialogModel::Filter(Seq::empty())),
                ..before
            })
            &&& key.code is Char && !key.control && !key.alt ==> final(app)@ == (AppModel {
                dialog: Some(DialogModel::Filter(draft + seq![key.code->Char_0])),
                ..before
            })
            &&& key.code is Char && (key.control || key.alt) ==> final(app)@ == before
            &&& !(key.code is Char) && key.code != KeyCode::Enter && key.code != KeyCode::Esc
                && key.code != KeyCode::Backspace && key.code != KeyCode::Delete ==> final(app)@
                == before
        }),
{
    let before = old(app)@;
    lemma_count_left(before.downloads, draft);
    if draft.len() > 0 {
        assert(draft.drop_last() =~= draft.take(draft.len() - 1));
    }
    if key.code is Char {
        assert(draft.push(key.code->Char_0) =~= draft + seq![key.code->Char_0]);
    }
    assert(before =~= (AppModel { dialog: Some(DialogModel::Filter(draft)), ..before }));
}

/// In the sort dialog Up and Down choose among number, name, size and what is there, as far as
/// there are any; Enter sorts by the choice, and Esc leaves the list as it is.
pub proof fn the_sort_key_is_chosen_and_taken(
    app: &mut App,
    key: Key,
    env: &UserEnvironment,
    res: Result<KeyOutcome, AppError>,
    place: int,
)
    requires
        call_ensures(App::handle_key, (app, key, env), res),
        goes_to_the_dialog(old(app)@, key),
        0 <= place < 4,
        old(app)@.dialog == Some(
            DialogModel::Sort(
                seq![SortBy::Number, SortBy::Name, SortBy::Size, SortBy::Downloaded][place],
            ),
        ),
    ensures
        ({
            let before = old(app)@;
            let closed = AppModel { dialog: None, ..before };
            let keys = seq![SortBy::Number, SortBy::Name, SortBy::Size, SortBy::Downloaded];
            &&& is_handled(res)
            &&& key.code == KeyCode::Enter ==> final(app)@ == showing(
                closed,
                DownloadsViewModel { sort: keys[place], ..before.downloads_view },
            )
            &&& key.code == KeyCode::Esc ==> final(app)@ == closed
            &&& key.code == KeyCode::Up ==> final(app)@ == (AppModel {
                dialog: Some(
                    DialogModel::Sort(
                        keys[if place == 0 {
                            0
                        } else {
                            place - 1
                        }],
                    ),
                ),
                ..before
            })
            &&& key.code == KeyCode::Down ==> final(app)@ == (AppModel {
                dialog: Some(
                    DialogModel::Sort(
                        keys[if place == 3 {
                            3
                        } else {
                            place + 1
                        }],
                    ),
                ),
                ..before
            })
            &&& key.code != KeyCode::Enter && key.code != KeyCode::Esc && key.code != KeyCode::Up
                && key.code != KeyCode::Down ==> final(app)@ == before
        }),
{
    lemma_count_left(old(app)@.downloads, old(app)@.downloads_view.filter);
}

/// Enter or `y` says yes to a question and Esc or `n` no, and no other key answers it. A yes clears
/// the filter, or ends the program; a no leaves everything as it is.
pub proof fn questions_are_answered(
    app: &mut App,
    key: Key,
    env: &UserEnvironment,
    res: Result<KeyOutcome, AppError>,
)
    requires
        call_ensures(App::handle_key, (app, key, env), res),
        goes_to_the_dialog(old(app)@, key),
        old(app)@.dialog == Some(DialogModel::ConfirmClear) || old(app)@.dialog == Some(
            DialogModel::ConfirmQuit,
        ),
    ensures
        ({
            let before = old(app)@;
            let closed = AppModel { dialog: None, ..before };
            let yes = key.code == KeyCode::Enter || key.code == KeyCode::Char('y');
            let no = key.code == KeyCode::Esc || key.code == KeyCode::Char('n');
            &&& is_handled(res)
            &&& yes && before.dialog == Some(DialogModel::ConfirmClear) ==> final(app)@ == showing(
                closed,
                DownloadsViewModel { filter: Seq::empty(), ..before.downloads_view },
            )
            &&& yes && before.dialog == Some(DialogModel::ConfirmQuit) ==> final(app)@
                == (AppModel { should_quit: true, ..closed })
            &&& no ==> final(app)@ == closed
            &&& !yes && !no ==> final(app)@ == before
        }),
{
    lemma_count_left(old(app)@.downloads, Seq::empty());
}

// ---------------------------------------------------------------------------------------------
// The form
// ---------------------------------------------------------------------------------------------

/// The text of the active field.
pub open spec fn active_text(app: AppModel) -> Seq<char> {
    if app.form_field == FormField::TorrentSource {
        app.torrent_source
    } else {
        app.download_dir
    }
}

/// The state with another text in the active field.
pub open spec fn with_active_text(app: AppModel, text: Seq<char>) -> AppModel {
    if app.form_field == FormField::TorrentSource {
        AppModel { torrent_source: text, ..app }
    } else {
        AppModel { download_dir: text, ..app }
    }
}

/// On the form, Up and Down go to the other field; text is typed behind what is there, Backspace
/// takes back the last character and Delete all of them. Typing ends the completions that are
/// stepped through. No other key but Tab, Shift with Tab, and Enter does anything.
pub proof fn the_form_is_typed_into(
    app: &mut App,
    key: Key,
    env: &UserEnvironment,
    res: Result<KeyOutcome, AppError>,
)
    requires
        call_ensures(App::handle_key, (app, key, env), res),
        goes_to(old(app)@, key, Screen::AddTorrent),
        key.code != KeyCode::Tab && key.code != KeyCode::BackTab && key.code != KeyCode::Enter,
    ensures
        ({
            let before = old(app)@;
            let ended = AppModel { completion: None, ..before };
            let text = active_text(before);
            &&& is_handled(res)
            &&& key.code == KeyCode::Up || key.code == KeyCode::Down ==> final(app)@ == (AppModel {
                form_field: if before.form_field == FormField::TorrentSource {
                    FormField::DownloadDir
                } else {
                    FormField::TorrentSource
                },
                ..before
            })
            &&& key.code is Char && !key.control && !key.alt ==> final(app)@ == with_active_text(
                ended,
                text + seq![key.code->Char_0],
            )
            &&& key.code is Char && (key.control || key.alt) ==> final(app)@ == before
            &&& key.code == KeyCode::Backspace && text.len() > 0 ==> final(app)@
                == with_active_text(ended, text.take(text.len() - 1))
            &&& key.code == KeyCode::Backspace && text.len() == 0 ==> final(app)@ == ended
            &&& key.code == KeyCode::Delete ==> final(app)@ == with_active_text(
                ended,
                Seq::empty(),
            )
            &&& key.code is F || key.code == KeyCode::Other ==> final(app)@ == before
        }),
{
    let before = old(app)@;
    let text = active_text(before);
    if text.len() > 0 {
        assert(text.drop_last() =~= text.take(text.len() - 1));
    }
    if key.code is Char {
        assert(text.push(key.code->Char_0) =~= text + seq![key.code->Char_0]);
    }
    if key.code == KeyCode::Backspace && text.len() == 0 {
        assert(final(app)@ =~= (AppModel { completion: None, ..before }));
    }
}

/// Enter on the form asks for the source to be queued, without the white space around it, for the
/// place that the directory stands for as a typed path. Nothing changes before that is done.
pub proof fn enter_asks_to_queue_the_source(
    app: &mut App,
    key: Key,
    env: &UserEnvironment,
    res: Result<KeyOutcome, AppError>,
    dir: &str,
    place: Result<PathBuf, PathError>,
)
    requires
        call_ensures(App::handle_key, (app, key, env), res),
        goes_to(old(app)@, key, Screen::AddTorrent),
        key.code == KeyCode::Enter,
        dir@ == old(app)@.download_dir,
        call_ensures(resolve_user_path, (dir, env), place),
    ensures
        final(app)@ == old(app)@,
        match place {
            Ok(place) => {
                &&& res is Ok
                &&& res->Ok_0 is Submit
                &&& res->Ok_0->Submit_0.source_input@ == trimmed(old(app)@.torrent_source)
                &&& path_bytes(res->Ok_0->Submit_0.download_dir) == path_bytes(place)
            },
            Err(error) => res is Err && res->Err_0 == AppError::OutputDirectory(error),
        },
{
}

/// Whether the active field holds a link, which no path is completed for.
pub open spec fn holds_a_link(app: AppModel) -> bool {
    let text = trimmed(app.torrent_source);
    app.form_field == FormField::TorrentSource && (begins_as_a_magnet_link(text)
        || begins_as_a_url(text))
}

/// Whether the completions that are stepped through are those of the active field, which holds what
/// was typed or the text of the selected one.
pub open spec fn is_stepping(app: AppModel) -> bool {
    let text = trimmed(active_text(app));
    &&& app.completion is Some
    &&& app.completion->0.field == app.form_field
    &&& app.completion->0.candidates.len() > 0
    &&& text == app.completion->0.seed_input || text
        == app.completion->0.candidates[app.completion->0.selected as int].replacement
}

/// A link is never completed: the field stays, and the status line says why.
pub proof fn links_are_left_alone(
    app: &mut App,
    key: Key,
    env: &UserEnvironment,
    res: Result<KeyOutcome, AppError>,
)
    requires
        call_ensures(App::handle_key, (app, key, env), res),
        goes_to(old(app)@, key, Screen::AddTorrent),
        key.code == KeyCode::Tab || key.code == KeyCode::BackTab,
        holds_a_link(old(app)@),
    ensures
        is_handled(res),
        final(app)@ == (AppModel {
            completion: None,
            status_line: "Local path completion is disabled for HTTP/HTTPS and magnet sources"@,
            ..old(app)@
        }),
{
    trimming_is_idempotent(old(app)@.torrent_source);
    lemma_schemes(trimmed(old(app)@.torrent_source));
}

/// What the completions of a field are called.
pub open spec fn called(field: FormField) -> Seq<char> {
    if field == FormField::TorrentSource {
        "source path"@
    } else {
        "directory path"@
    }
}

/// Whether a status line tells which of a number of completions is selected, counted from one.
pub open spec fn tells_the_place(
    line: Seq<char>,
    field: FormField,
    selected: int,
    total: int,
    place: Seq<char>,
    count: Seq<char>,
) -> bool {
    &&& line == called(field) + " completion "@ + place + "/"@ + count
    &&& is_decimal(place)
    &&& number_read(place) == selected + 1
    &&& is_decimal(count)
    &&& number_read(count) == total
}

/// Tab puts the next of the completions that are stepped through into the field, and Shift with Tab
/// the one before, around the ends; the status line tells which one it is.
pub proof fn tab_steps_through_the_completions(
    app: &mut App,
    key: Key,
    env: &UserEnvironment,
    res: Result<KeyOutcome, AppError>,
    next: int,
)
    requires
        call_ensures(App::handle_key, (app, key, env), res),
        goes_to(old(app)@, key, Screen::AddTorrent),
        !holds_a_link(old(app)@),
        is_stepping(old(app)@),
        old(app)@.completion->0.selected < old(app)@.completion->0.candidates.len() <= usize::MAX,
        ({
            let selected = old(app)@.completion->0.selected as int;
            let total = old(app)@.completion->0.candidates.len() as int;
            ||| key.code == KeyCode::Tab && selected + 1 < total && next == selected + 1
            ||| key.code == KeyCode::Tab && selected + 1 == total && next == 0
            ||| key.code == KeyCode::BackTab && selected > 0 && next == selected - 1
            ||| key.code == KeyCode::BackTab && selected == 0 && next == total - 1
        }),
    ensures
        ({
            let before = old(app)@;
            let total = before.completion->0.candidates.len() as int;
            let line = final(app)@.status_line;
            &&& is_handled(res)
            &&& final(app)@.completion is Some
            &&& final(app)@.completion->0.selected == next
            &&& final(app)@.completion->0.candidates == before.completion->0.candidates
            &&& final(app)@.completion->0.seed_input == before.completion->0.seed_input
            &&& final(app)@.completion->0.field == before.completion->0.field
            &&& final(app)@ == (AppModel {
                completion: final(app)@.completion,
                status_line: line,
                ..with_active_text(before, before.completion->0.candidates[next].replacement)
            })
            &&& exists|place: Seq<char>, count: Seq<char>| #[trigger]
                tells_the_place(line, before.form_field, next, total, place, count)
        }),
{
    let before = old(app)@;
    let total = before.completion->0.candidates.len();
    trimming_is_idempotent(active_text(before));
    lemma_schemes(trimmed(active_text(before)));
    let place = decimal_text((next + 1) as nat);
    let count = decimal_text(total);
    lemma_decimal_reads_back((next + 1) as nat);
    lemma_decimal_reads_back(total);
    assert(tells_the_place(
        final(app)@.status_line,
        before.form_field,
        next,
        total as int,
        place,
        count,
    ));
}

/// Where nothing is stepped through, Tab and Shift with Tab ask for the directory to be listed that
/// the text names up to its last slash. Nothing changes before that is done.
pub proof fn tab_asks_for_a_listing(
    app: &mut App,
    key: Key,
    env: &UserEnvironment,
    res: Result<KeyOutcome, AppError>,
    typed: &str,
    lookup: Result<Lookup, PathError>,
)
    requires
        call_ensures(App::handle_key, (app, key, env), res),
        goes_to(old(app)@, key, Screen::AddTorrent),
        key.code == KeyCode::Tab || key.code == KeyCode::BackTab,
        !holds_a_link(old(app)@),
        !is_stepping(old(app)@),
        typed@ == trimmed(active_text(old(app)@)),
        call_ensures(Lookup::from_input, (typed, env), lookup),
    ensures
        final(app)@ == old(app)@,
        match lookup {
            Ok(lookup) => {
                let request = res->Ok_0->Complete_0;
                &&& res is Ok
                &&& res->Ok_0 is Complete
                &&& request.field == old(app)@.form_field
                &&& key.code == KeyCode::Tab <==> request.direction == CompletionDirection::Forward
                &&& request.query.seed_input@ == typed@
                &&& path_bytes(request.query.lookup.search_dir) == path_bytes(lookup.search_dir)
                &&& request.query.lookup.raw_dir_prefix@ == lookup.raw_dir_prefix@
                &&& request.query.lookup.entry_prefix@ == lookup.entry_prefix@
            },
            Err(error) => res is Err && res->Err_0 == AppError::Completion(
                CompletionError::Path(error),
            ),
        },
{
    let before = old(app)@;
    trimming_is_idempotent(active_text(before));
    lemma_schemes(trimmed(active_text(before)));
}

/// Pasted text goes behind the text of the active field while the form has the focus, without the
/// line ends around it, and the status line says so; where nothing is left of it, or the form has
/// not the focus, nothing changes.
pub proof fn pasted_text_goes_into_the_active_field(app: &mut App, text: &str)
    requires
        call_ensures(App::handle_paste, (app, text), ()),
    ensures
        ({
            let before = old(app)@;
            let takes = before.focus == FocusArea::Content && before.screen == Screen::AddTorrent;
            &&& !takes ==> final(app)@ == before
            &&& takes ==> exists|front: Seq<char>, part: Seq<char>, back: Seq<char>|
                {
                    &&& #[trigger] is_bare_part(text@, front, part, back)
                    &&& part.len() == 0 ==> final(app)@ == before
                    &&& part.len() > 0 ==> final(app)@ == with_active_text(
                        AppModel {
                            completion: None,
                            status_line: "Pasted into "@ + (if before.form_field
                                == FormField::TorrentSource {
                                "Torrent source"@
                            } else {
                                "Output directory"@
                            }),
                            ..before
                        },
                        active_text(before) + part,
                    )
                }
        }),
{
    let before = old(app)@;
    let part = without_ends(text@, |c: char| is_line_end(c));
    lemma_bare_part(text@, part);
    let (front, back) = choose|front: Seq<char>, back: Seq<char>| #[trigger]
        is_bare_part(text@, front, part, back);
    assert(is_bare_part(text@, front, part, back));
}

/// The parts of the form can be read and set by themselves.
pub proof fn fields_hold_what_they_are_set_to(
    app: &mut App,
    field: FormField,
    value: String,
)
    requires
        call_ensures(App::set_active_value, (app, field, value), ()),
    ensures
        field == FormField::TorrentSource ==> final(app)@ == (AppModel {
            torrent_source: value@,
            ..old(app)@
        }),
        field == FormField::DownloadDir ==> final(app)@ == (AppModel {
            download_dir: value@,
            ..old(app)@
        }),
{
}

/// A field is read as what it holds.
pub proof fn fields_are_read_as_they_are(app: &App, field: FormField, text: &str)
    requires
        call_ensures(App::active_value, (app, field), text),
    ensures
        field == FormField::TorrentSource ==> text@ == app@.torrent_source,
        field == FormField::DownloadDir ==> text@ == app@.download_dir,
{
}

// ---------------------------------------------------------------------------------------------
// Handlers by themselves
// ---------------------------------------------------------------------------------------------

/// A key that goes to the list does there what it does by itself, and keys that never go there do
/// nothing.
pub proof fn the_list_handles_its_keys(
    app: &mut App,
    other: &mut App,
    key: Key,
    env: &UserEnvironment,
    res: Result<KeyOutcome, AppError>,
)
    requires
        call_ensures(App::handle_downloads_key, (app, key), ()),
        call_ensures(App::handle_key, (other, key, env), res),
        old(app)@ == old(other)@,
    ensures
        goes_to(old(other)@, key, Screen::Downloads) ==> final(app)@ == final(other)@,
        key.code != KeyCode::Up && key.code != KeyCode::Down && !(key.code is Char) ==> final(app)@
            == old(app)@,
{
}

/// A key that goes to the menu does there what it does by itself, and other keys do nothing.
pub proof fn the_menu_handles_its_keys(
    app: &mut App,
    other: &mut App,
    key: Key,
    env: &UserEnvironment,
    res: Result<KeyOutcome, AppError>,
)
    requires
        call_ensures(App::handle_menu_key, (app, key), ()),
        call_ensures(App::handle_key, (other, key, env), res),
        old(app)@ == old(other)@,
    ensures
        goes_through(old(other)@, key) && old(other)@.focus == FocusArea::Menu && key.code
            != KeyCode::Left && key.code != KeyCode::Right && key.code != KeyCode::Esc ==> final(
            app)@ == final(other)@,
        key.code != KeyCode::Up && key.code != KeyCode::Down && key.code != KeyCode::Enter
            ==> final(app)@ == old(app)@,
{
}

/// A key that goes to the form does there what it does by itself, and leaves as much to be done
/// outside.
pub proof fn the_form_handles_its_keys(
    app: &mut App,
    other: &mut App,
    key: Key,
    env: &UserEnvironment,
    res: Result<KeyOutcome, AppError>,
    outcome: Result<KeyOutcome, AppError>,
)
    requires
        call_ensures(App::handle_add_torrent_key, (app, key, env), res),
        call_ensures(App::handle_key, (other, key, env), outcome),
        old(app)@ == old(other)@,
        goes_to(old(other)@, key, Screen::AddTorrent),
    ensures
        final(app)@ == final(other)@,
        effect_of(res) == effect_of(outcome),
{
}

/// Completing the active field is what Tab and Shift with Tab do on the form.
pub proof fn tab_completes_the_active_field(
    app: &mut App,
    other: &mut App,
    key: Key,
    direction: CompletionDirection,
    env: &UserEnvironment,
    res: Result<KeyOutcome, AppError>,
    outcome: Result<KeyOutcome, AppError>,
)
    requires
        call_ensures(App::complete_active_input, (app, direction, env), res),
        call_ensures(App::handle_key, (other, key, env), outcome),
        old(app)@ == old(other)@,
        goes_to(old(other)@, key, Screen::AddTorrent),
        direction == CompletionDirection::Forward ==> key.code == KeyCode::Tab,
        direction == CompletionDirection::Backward ==> key.code == KeyCode::BackTab,
    ensures
        final(app)@ == final(other)@,
        effect_of(res) == effect_of(outcome),
{
}

/// Another screen is shown, and nothing else changes.
pub proof fn screens_are_set(app: &mut App, screen: Screen)
    requires
        call_ensures(App::set_screen, (app, screen), ()),
    ensures
        final(app)@ == (AppModel { screen, ..old(app)@ }),
{
}

/// The screens above and below are those of the menu, as far as there are any.
pub proof fn screens_have_neighbours(app: &mut App, other: &mut App, place: int)
    requires
        call_ensures(App::select_previous_screen, (app,), ()),
        call_ensures(App::select_next_screen, (other,), ()),
        old(app)@ == old(other)@,
        0 <= place < 3,
        old(app)@.screen == seq![Screen::AddTorrent, Screen::Downloads, Screen::Server][place],
    ensures
        ({
            let screens = seq![Screen::AddTorrent, Screen::Downloads, Screen::Server];
            &&& final(app)@ == (AppModel {
                screen: screens[if place == 0 {
                    0
                } else {
                    place - 1
                }],
                ..old(app)@
            })
            &&& final(other)@ == (AppModel {
                screen: screens[if place == 2 {
                    2
                } else {
                    place + 1
                }],
                ..old(other)@
            })
        }),
{
}

/// Leaving the completions changes nothing else.
pub proof fn completions_are_left(app: &mut App)
    requires
        call_ensures(App::clear_completion, (app,), ()),
    ensures
        final(app)@ == (AppModel { completion: None, ..old(app)@ }),
{
}

/// A character is typed behind the text of the active field.
pub proof fn characters_are_typed(app: &mut App, character: char)
    requires
        call_ensures(App::push_active_input, (app, character), ()),
    ensures
        final(app)@ == with_active_text(
            AppModel { completion: None, ..old(app)@ },
            active_text(old(app)@) + seq![character],
        ),
{
    let text = active_text(old(app)@);
    assert(text.push(character) =~= text + seq![character]);
}

/// The last character is taken off the active field, or all of them.
pub proof fn characters_are_taken_back(app: &mut App, other: &mut App)
    requires
        call_ensures(App::pop_active_input, (app,), ()),
        call_ensures(App::clear_active_input, (other,), ()),
    ensures
        ({
            let text = active_text(old(app)@);
            let ended = AppModel { completion: None, ..old(app)@ };
            &&& text.len() > 0 ==> final(app)@ == with_active_text(
                ended,
                text.take(text.len() - 1),
            )
            &&& text.len() == 0 ==> final(app)@ == ended
        }),
        final(other)@ == with_active_text(
            AppModel { completion: None, ..old(other)@ },
            Seq::empty(),
        ),
{
    let text = active_text(old(app)@);
    if text.len() > 0 {
        assert(text.drop_last() =~= text.take(text.len() - 1));
    } else {
        assert(final(app)@ =~= (AppModel { completion: None, ..old(app)@ }));
    }
}

} // verus!
