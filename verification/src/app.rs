//! The state of the terminal interface, and what keys, pasted text and listings do to it.
use crate::completion_state::{CompletionModel, CompletionState};
use crate::config::AppConfig;
use crate::downloads_view::{
    kept, kept_count, plain_view, sort_above, sort_below, Dialog, DialogModel,
    DownloadsView, DownloadsViewModel,
};
use crate::engine::TorrentSnapshot;
use crate::errors::{one_line, AppError, CompletionError, QueueError};
use crate::form::{
    field_completes, mode_of, other_field, screen_above, screen_below, subject_of, title_of,
    CompletionDirection, FocusArea, FormField, Key, KeyCode, Screen,
};
use crate::order::is_stable_sort;
use crate::path_completion::{
    candidate_models, candidate_ranks, collect_candidates, completion_query, is_tolerated,
    lookup_for, offered, resolve_user_path, resolved, shared_by_all, CandidateModel,
    CompletionQuery, CompletionSet, Listing, LookupModel, PathCompletionMode, UserEnvironment,
};
use crate::paths::{display, displayed, path_bytes};
use crate::text::{decimal, decimal_text, is_line_end, trimmed, without_ends, without_line_ends};
use std::path::PathBuf;
use vstd::prelude::*;
use vstd::string::*;
use vstd::utf8::{decode_utf8, encode_utf8, valid_utf8};

verus! {

/// The state of the terminal interface.
#[derive(Debug)]
pub struct App {
    pub(crate) config: AppConfig,
    pub(crate) downloads: Vec<TorrentSnapshot>,
    pub(crate) screen: Screen,
    pub(crate) downloads_selected: Option<usize>,
    pub(crate) downloads_view: DownloadsView,
    pub(crate) dialog: Option<Dialog>,
    pub(crate) help_open: bool,
    pub(crate) focus: FocusArea,
    pub(crate) form_field: FormField,
    pub(crate) torrent_source: String,
    pub(crate) download_dir: String,
    pub(crate) completion_state: Option<CompletionState>,
    pub(crate) status_line: String,
    pub(crate) should_quit: bool,
}

/// An `App` in contracts.
#[verifier::ext_equal]
pub struct AppModel {
    pub config: AppConfig,
    pub downloads: Seq<TorrentSnapshot>,
    pub screen: Screen,
    pub downloads_selected: Option<usize>,
    pub downloads_view: DownloadsViewModel,
    pub dialog: Option<DialogModel>,
    pub help_open: bool,
    pub focus: FocusArea,
    pub form_field: FormField,
    pub torrent_source: Seq<char>,
    pub download_dir: Seq<char>,
    pub completion: Option<CompletionModel>,
    pub status_line: Seq<char>,
    pub should_quit: bool,
}

impl View for App {
    type V = AppModel;

    open(crate) spec fn view(&self) -> AppModel {
        AppModel {
            config: self.config,
            downloads: self.downloads@,
            screen: self.screen,
            downloads_selected: self.downloads_selected,
            downloads_view: self.downloads_view@,
            dialog: match self.dialog {
                Some(dialog) => Some(dialog@),
                None => None,
            },
            help_open: self.help_open,
            focus: self.focus,
            form_field: self.form_field,
            torrent_source: self.torrent_source@,
            download_dir: self.download_dir@,
            completion: match self.completion_state {
                Some(state) => Some(state@),
                None => None,
            },
            status_line: self.status_line@,
            should_quit: self.should_quit,
        }
    }
}

impl AppModel {
    /// One of the downloads that are shown is selected, and none where none is shown. Where
    /// completions are stepped through, one of them is selected.
    pub open spec fn inv(self) -> bool {
        &&& match self.downloads_selected {
            Some(selected) => selected < self.shown_count(),
            None => self.shown_count() == 0,
        }
        &&& self.completion matches Some(completion) ==> completion.inv()
    }

    /// How many downloads are shown: those that the filter keeps.
    pub open spec fn shown_count(self) -> nat {
        kept(self.downloads, self.downloads_view.filter).len()
    }

    /// What a field holds.
    pub open spec fn text_in(self, field: FormField) -> Seq<char> {
        match field {
            FormField::TorrentSource => self.torrent_source,
            FormField::DownloadDir => self.download_dir,
        }
    }

    /// The state with another text in a field.
    pub open spec fn with_text(self, field: FormField, text: Seq<char>) -> AppModel {
        match field {
            FormField::TorrentSource => AppModel { torrent_source: text, ..self },
            FormField::DownloadDir => AppModel { download_dir: text, ..self },
        }
    }

    /// The state with another text in the active field, and no completions left.
    pub open spec fn with_typed(self, text: Seq<char>) -> AppModel {
        AppModel { completion: None, ..self.with_text(self.form_field, text) }
    }

    /// The state with another text in the status line.
    pub open spec fn with_status(self, text: Seq<char>) -> AppModel {
        AppModel { status_line: text, ..self }
    }

    /// Whether a step in the active field belongs to the completions that it is stepped through.
    pub open spec fn steps_on(self) -> bool {
        &&& self.completion is Some
        &&& self.completion->0.continues(self.form_field, trimmed(self.text_in(self.form_field)))
    }
}

// ---------------------------------------------------------------------------------------------
// The start
// ---------------------------------------------------------------------------------------------

impl App {
    /// The interface as it starts: on the form, with the default directory to download to, and
    /// with no dialog open.
    pub fn new(config: AppConfig) -> (app: App)
        ensures
            app@.inv(),
            app@ == (AppModel {
                config,
                downloads: Seq::empty(),
                screen: Screen::AddTorrent,
                downloads_selected: None,
                downloads_view: plain_view(),
                dialog: None,
                help_open: false,
                focus: FocusArea::Content,
                form_field: FormField::TorrentSource,
                torrent_source: Seq::empty(),
                download_dir: displayed(path_bytes(config.default_download_dir)),
                completion: None,
                status_line: "Incoming folder reserved for a future Telegram bot: "@ + displayed(
                    path_bytes(config.incoming_torrents_dir),
                ),
                should_quit: false,
            }),
            valid_utf8(path_bytes(config.default_download_dir)) ==> app@.download_dir
                == decode_utf8(path_bytes(config.default_download_dir)),
    {
        App {
            download_dir: display(&config.default_download_dir),
            status_line: "Incoming folder reserved for a future Telegram bot: ".to_owned().concat(
                display(&config.incoming_torrents_dir).as_str(),
            ),
            config,
            downloads: Vec::new(),
            screen: Screen::AddTorrent,
            downloads_selected: None,
            downloads_view: DownloadsView::plain(),
            dialog: None,
            help_open: false,
            focus: FocusArea::Content,
            form_field: FormField::TorrentSource,
            torrent_source: String::new(),
            completion_state: None,
            should_quit: false,
        }
    }
}

// ---------------------------------------------------------------------------------------------
// What the state holds
// ---------------------------------------------------------------------------------------------

impl App {
    /// The downloads, in the order in which the session tells of them.
    pub fn downloads(&self) -> (downloads: &Vec<TorrentSnapshot>)
        ensures
            downloads@ == self@.downloads,
    {
        &self.downloads
    }

    /// Which of the downloads that are shown is selected.
    pub fn downloads_selected(&self) -> (selected: Option<usize>)
        ensures
            selected == self@.downloads_selected,
    {
        self.downloads_selected
    }

    /// How the downloads are shown.
    pub fn downloads_view(&self) -> (view: &DownloadsView)
        ensures
            view@ == self@.downloads_view,
    {
        &self.downloads_view
    }

    /// The dialog that is open.
    pub fn dialog(&self) -> (dialog: Option<&Dialog>)
        ensures
            match dialog {
                Some(dialog) => self@.dialog == Some(dialog@),
                None => self@.dialog is None,
            },
    {
        match &self.dialog {
            Some(dialog) => Some(dialog),
            None => None,
        }
    }

    /// Whether the help is open.
    pub fn help_open(&self) -> (open: bool)
        ensures
            open == self@.help_open,
    {
        self.help_open
    }

    /// The screen that is shown.
    pub fn current_screen(&self) -> (screen: Screen)
        ensures
            screen == self@.screen,
    {
        self.screen
    }

    /// Shows another screen.
    pub fn set_screen(&mut self, screen: Screen)
        ensures
            final(self)@ == (AppModel { screen, ..old(self)@ }),
    {
        self.screen = screen;
    }

    /// Where keys go.
    pub fn focus(&self) -> (focus: FocusArea)
        ensures
            focus == self@.focus,
    {
        self.focus
    }

    /// The active field of the form.
    pub fn form_field(&self) -> (field: FormField)
        ensures
            field == self@.form_field,
    {
        self.form_field
    }

    /// The completions that are stepped through.
    pub fn completion_state(&self) -> (state: Option<&CompletionState>)
        ensures
            match state {
                Some(state) => self@.completion == Some(state@),
                None => self@.completion is None,
            },
    {
        match &self.completion_state {
            Some(state) => Some(state),
            None => None,
        }
    }

    /// The status line.
    pub fn status_line(&self) -> (line: &str)
        ensures
            line@ == self@.status_line,
    {
        self.status_line.as_str()
    }

    /// Whether the interface is to be left.
    pub fn should_quit(&self) -> (quit: bool)
        ensures
            quit == self@.should_quit,
    {
        self.should_quit
    }
}

// ---------------------------------------------------------------------------------------------
// Downloads
// ---------------------------------------------------------------------------------------------

/// Whether a key says yes to a question: Enter or `y`.
pub open spec fn confirms(code: KeyCode) -> bool {
    code == KeyCode::Enter || code == KeyCode::Char('y')
}

/// Whether a key says no to a question: Esc or `n`.
pub open spec fn declines(code: KeyCode) -> bool {
    code == KeyCode::Esc || code == KeyCode::Char('n')
}

impl AppModel {
    /// The state with the selection where it is as far as downloads are shown, on the last one
    /// otherwise, and on the first one where none was selected.
    pub open spec fn reselected(self) -> AppModel {
        let wanted = match self.downloads_selected {
            Some(selected) => selected,
            None => 0,
        };
        AppModel {
            downloads_selected: if self.shown_count() == 0 {
                None
            } else if wanted < self.shown_count() {
                Some(wanted)
            } else {
                Some((self.shown_count() - 1) as usize)
            },
            ..self
        }
    }

    /// The state with other downloads.
    pub open spec fn with_downloads(self, downloads: Seq<TorrentSnapshot>) -> AppModel {
        AppModel { downloads, ..self }.reselected()
    }

    /// The state with the downloads shown in another way.
    pub open spec fn with_view(self, view: DownloadsViewModel) -> AppModel {
        AppModel { downloads_view: view, ..self }.reselected()
    }

    /// The state with a dialog open, or with none.
    pub open spec fn with_dialog(self, dialog: Option<DialogModel>) -> AppModel {
        AppModel { dialog, ..self }
    }

    /// The state after a key on the list of downloads: the selection moves up or down as far as
    /// downloads are shown, and letters open dialogs or change how the list is shown, unless they
    /// are pressed with Control or Alt.
    pub open spec fn after_downloads_key(self, key: Key) -> AppModel {
        let view = self.downloads_view;
        match key.code {
            KeyCode::Up => match self.downloads_selected {
                Some(selected) => AppModel {
                    downloads_selected: Some(
                        if selected == 0 {
                            0
                        } else {
                            (selected - 1) as usize
                        },
                    ),
                    ..self
                },
                None => self,
            },
            KeyCode::Down => match self.downloads_selected {
                Some(selected) => AppModel {
                    downloads_selected: Some(
                        if selected + 1 < self.shown_count() {
                            (selected + 1) as usize
                        } else {
                            selected
                        },
                    ),
                    ..self
                },
                None => self,
            },
            KeyCode::Char(c) => if key.control || key.alt {
                self
            } else if c == '/' {
                self.with_dialog(Some(DialogModel::Filter(view.filter)))
            } else if c == 's' {
                self.with_dialog(Some(DialogModel::Sort(view.sort)))
            } else if c == 'r' {
                self.with_view(DownloadsViewModel { reversed: !view.reversed, ..view })
            } else if c == 'm' {
                self.with_view(DownloadsViewModel { compact: !view.compact, ..view })
            } else if c == 'c' {
                self.with_dialog(Some(DialogModel::ConfirmClear))
            } else if c == 'x' {
                self.with_view(plain_view())
            } else if c == 'q' {
                self.with_dialog(Some(DialogModel::ConfirmQuit))
            } else {
                self
            },
            _ => self,
        }
    }

    /// The state after a key while a dialog is open. The filter is typed, and the sort key chosen
    /// with up and down; Enter takes either over, and Esc leaves things as they are.
    pub open spec fn after_dialog_key(self, dialog: DialogModel, key: Key) -> AppModel {
        let view = self.downloads_view;
        let closed = self.with_dialog(None);
        match dialog {
            DialogModel::Filter(draft) => match key.code {
                KeyCode::Enter => closed.with_view(DownloadsViewModel { filter: draft, ..view }),
                KeyCode::Esc => closed,
                KeyCode::Backspace => self.with_dialog(
                    Some(
                        DialogModel::Filter(
                            if draft.len() == 0 {
                                draft
                            } else {
                                draft.drop_last()
                            },
                        ),
                    ),
                ),
                KeyCode::Delete => self.with_dialog(Some(DialogModel::Filter(Seq::empty()))),
                KeyCode::Char(c) => if key.control || key.alt {
                    self
                } else {
                    self.with_dialog(Some(DialogModel::Filter(draft.push(c))))
                },
                _ => self,
            },
            DialogModel::Sort(choice) => match key.code {
                KeyCode::Enter => closed.with_view(DownloadsViewModel { sort: choice, ..view }),
                KeyCode::Esc => closed,
                KeyCode::Up => self.with_dialog(Some(DialogModel::Sort(sort_above(choice)))),
                KeyCode::Down => self.with_dialog(Some(DialogModel::Sort(sort_below(choice)))),
                _ => self,
            },
            DialogModel::ConfirmClear => if confirms(key.code) {
                closed.with_view(DownloadsViewModel { filter: Seq::empty(), ..view })
            } else if declines(key.code) {
                closed
            } else {
                self
            },
            DialogModel::ConfirmQuit => if confirms(key.code) {
                AppModel { should_quit: true, ..closed }
            } else if declines(key.code) {
                closed
            } else {
                self
            },
        }
    }

    /// The state after a key on the menu.
    pub open spec fn after_menu_key(self, code: KeyCode) -> AppModel {
        match code {
            KeyCode::Up => AppModel { screen: screen_above(self.screen), ..self },
            KeyCode::Down => AppModel { screen: screen_below(self.screen), ..self },
            KeyCode::Enter => AppModel { focus: FocusArea::Content, ..self },
            _ => self,
        }
    }
}

impl App {
    /// Takes the torrents of the session as they are now.
    pub fn refresh_downloads(&mut self, downloads: Vec<TorrentSnapshot>)
        requires
            old(self)@.inv(),
        ensures
            final(self)@ == old(self)@.with_downloads(downloads@),
            final(self)@.inv(),
    {
        self.downloads = downloads;
        self.reselect();
    }

    /// Leaves the selection where it is as far as downloads are shown.
    fn reselect(&mut self)
        ensures
            final(self)@ == old(self)@.reselected(),
            (old(self)@.completion matches Some(completion) ==> completion.inv())
                ==> final(self)@.inv(),
    {
        let shown: usize = kept_count(&self.downloads, self.downloads_view.filter.as_str());
        let wanted: usize = match self.downloads_selected {
            Some(selected) => selected,
            None => 0,
        };
        self.downloads_selected = if shown == 0 {
            None
        } else if wanted < shown {
            Some(wanted)
        } else {
            Some(shown - 1)
        };
    }

    /// A key on the list of downloads.
    pub fn handle_downloads_key(&mut self, key: Key)
        requires
            old(self)@.inv(),
        ensures
            final(self)@ == old(self)@.after_downloads_key(key),
            final(self)@.inv(),
    {
        match key.code {
            KeyCode::Up => {
                if let Some(selected) = self.downloads_selected {
                    self.downloads_selected = Some(
                        if selected == 0 {
                            0
                        } else {
                            selected - 1
                        },
                    );
                }
            },
            KeyCode::Down => {
                if let Some(selected) = self.downloads_selected {
                    let shown: usize = kept_count(
                        &self.downloads,
                        self.downloads_view.filter.as_str(),
                    );
                    self.downloads_selected = Some(
                        if selected + 1 < shown {
                            selected + 1
                        } else {
                            selected
                        },
                    );
                }
            },
            KeyCode::Char(character) => {
                if !(key.control || key.alt) {
                    self.handle_downloads_letter(character);
                }
            },
            _ => {},
        }
    }

    /// A letter on the list of downloads.
    fn handle_downloads_letter(&mut self, character: char)
        requires
            old(self)@.inv(),
        ensures
            final(self)@ == old(self)@.after_downloads_key(
                Key { code: KeyCode::Char(character), control: false, alt: false },
            ),
            final(self)@.inv(),
    {
        if character == '/' {
            self.dialog = Some(Dialog::Filter(self.downloads_view.filter.clone()));
        } else if character == 's' {
            self.dialog = Some(Dialog::Sort(self.downloads_view.sort));
        } else if character == 'r' {
            self.downloads_view.reversed = !self.downloads_view.reversed;
            self.reselect();
        } else if character == 'm' {
            self.downloads_view.compact = !self.downloads_view.compact;
            self.reselect();
        } else if character == 'c' {
            self.dialog = Some(Dialog::ConfirmClear);
        } else if character == 'x' {
            self.downloads_view = DownloadsView::plain();
            self.reselect();
        } else if character == 'q' {
            self.dialog = Some(Dialog::ConfirmQuit);
        }
    }

    /// A key while a dialog was open, which was taken out of the state.
    fn handle_dialog_key(&mut self, dialog: Dialog, key: Key)
        requires
            old(self)@.inv(),
            old(self)@.dialog is None,
        ensures
            final(self)@ == old(self)@.with_dialog(Some(dialog@)).after_dialog_key(dialog@, key),
            final(self)@.inv(),
    {
        match dialog {
            Dialog::Filter(mut draft) => match key.code {
                KeyCode::Enter => {
                    self.downloads_view.filter = draft;
                    self.reselect();
                },
                KeyCode::Esc => {},
                KeyCode::Backspace => {
                    let _ = draft.pop();
                    self.dialog = Some(Dialog::Filter(draft));
                },
                KeyCode::Delete => {
                    self.dialog = Some(Dialog::Filter(String::new()));
                },
                KeyCode::Char(character) => {
                    if !(key.control || key.alt) {
                        draft.push(character);
                    }
                    self.dialog = Some(Dialog::Filter(draft));
                },
                _ => {
                    self.dialog = Some(Dialog::Filter(draft));
                },
            },
            Dialog::Sort(choice) => match key.code {
                KeyCode::Enter => {
                    self.downloads_view.sort = choice;
                    self.reselect();
                },
                KeyCode::Esc => {},
                KeyCode::Up => {
                    self.dialog = Some(Dialog::Sort(choice.above()));
                },
                KeyCode::Down => {
                    self.dialog = Some(Dialog::Sort(choice.below()));
                },
                _ => {
                    self.dialog = Some(Dialog::Sort(choice));
                },
            },
            Dialog::ConfirmClear => {
                if key.code == KeyCode::Enter || key.code == KeyCode::Char('y') {
                    self.downloads_view.filter = String::new();
                    self.reselect();
                } else if !(key.code == KeyCode::Esc || key.code == KeyCode::Char('n')) {
                    self.dialog = Some(Dialog::ConfirmClear);
                }
            },
            Dialog::ConfirmQuit => {
                if key.code == KeyCode::Enter || key.code == KeyCode::Char('y') {
                    self.should_quit = true;
                } else if !(key.code == KeyCode::Esc || key.code == KeyCode::Char('n')) {
                    self.dialog = Some(Dialog::ConfirmQuit);
                }
            },
        }
    }

    /// Goes to the screen above in the menu.
    pub fn select_previous_screen(&mut self)
        ensures
            final(self)@ == (AppModel { screen: screen_above(old(self)@.screen), ..old(self)@ }),
    {
        let index: usize = self.current_screen().index();
        self.set_screen(
            Screen::from_index(
                if index == 0 {
                    0
                } else {
                    index - 1
                },
            ),
        );
    }

    /// Goes to the screen below in the menu.
    pub fn select_next_screen(&mut self)
        ensures
            final(self)@ == (AppModel { screen: screen_below(old(self)@.screen), ..old(self)@ }),
    {
        let index: usize = self.current_screen().index();
        let last: usize = Screen::all().len() - 1;
        self.set_screen(
            Screen::from_index(
                if index + 1 < last {
                    index + 1
                } else {
                    last
                },
            ),
        );
    }

    /// A key on the menu.
    pub fn handle_menu_key(&mut self, key: Key)
        ensures
            final(self)@ == old(self)@.after_menu_key(key.code),
    {
        match key.code {
            KeyCode::Up => self.select_previous_screen(),
            KeyCode::Down => self.select_next_screen(),
            KeyCode::Enter => {
                self.focus = FocusArea::Content;
            },
            _ => {},
        }
    }
}

// ---------------------------------------------------------------------------------------------
// The text of the fields
// ---------------------------------------------------------------------------------------------

impl AppModel {
    /// The state after a text was pasted: it goes behind the text of the active field, without
    /// the line ends around it, while the form has the focus.
    pub open spec fn after_paste(self, text: Seq<char>) -> AppModel {
        let pasted = without_ends(text, |c: char| is_line_end(c));
        if self.focus == FocusArea::Content && self.screen == Screen::AddTorrent && pasted.len()
            > 0 {
            self.with_typed(self.text_in(self.form_field) + pasted).with_status(
                "Pasted into "@ + title_of(self.form_field),
            )
        } else {
            self
        }
    }
}

impl App {
    /// What a field holds.
    pub fn active_value(&self, field: FormField) -> (text: &str)
        ensures
            text@ == self@.text_in(field),
    {
        match field {
            FormField::TorrentSource => self.torrent_source.as_str(),
            FormField::DownloadDir => self.download_dir.as_str(),
        }
    }

    /// Puts another text into a field.
    pub fn set_active_value(&mut self, field: FormField, value: String)
        ensures
            final(self)@ == old(self)@.with_text(field, value@),
    {
        match field {
            FormField::TorrentSource => {
                self.torrent_source = value;
            },
            FormField::DownloadDir => {
                self.download_dir = value;
            },
        }
    }

    /// Leaves the completions that are stepped through.
    pub fn clear_completion(&mut self)
        ensures
            final(self)@ == (AppModel { completion: None, ..old(self)@ }),
    {
        self.completion_state = None;
    }

    /// Types a character into the active field.
    pub fn push_active_input(&mut self, character: char)
        ensures
            final(self)@ == old(self)@.with_typed(
                old(self)@.text_in(old(self)@.form_field).push(character),
            ),
    {
        self.clear_completion();
        match self.form_field {
            FormField::TorrentSource => self.torrent_source.push(character),
            FormField::DownloadDir => self.download_dir.push(character),
        }
    }

    /// Takes the last character off the active field, where it has one.
    pub fn pop_active_input(&mut self)
        ensures
            final(self)@ == old(self)@.with_typed(
                {
                    let text = old(self)@.text_in(old(self)@.form_field);
                    if text.len() == 0 {
                        text
                    } else {
                        text.drop_last()
                    }
                },
            ),
    {
        self.clear_completion();
        match self.form_field {
            FormField::TorrentSource => {
                let _ = self.torrent_source.pop();
            },
            FormField::DownloadDir => {
                let _ = self.download_dir.pop();
            },
        }
    }

    /// Empties the active field.
    pub fn clear_active_input(&mut self)
        ensures
            final(self)@ == old(self)@.with_typed(Seq::empty()),
    {
        self.clear_completion();
        match self.form_field {
            FormField::TorrentSource => self.torrent_source.clear(),
            FormField::DownloadDir => self.download_dir.clear(),
        }
    }

    /// Pastes a text into the active field.
    pub fn handle_paste(&mut self, text: &str)
        requires
            old(self)@.inv(),
        ensures
            final(self)@ == old(self)@.after_paste(text@),
            final(self)@.inv(),
    {
        if self.focus != FocusArea::Content || self.screen != Screen::AddTorrent {
            return;
        }
        let pasted = without_line_ends(text);
        if pasted.as_str().is_empty() {
            return;
        }
        self.clear_completion();
        match self.form_field {
            FormField::TorrentSource => self.torrent_source.append(pasted.as_str()),
            FormField::DownloadDir => self.download_dir.append(pasted.as_str()),
        }
        self.status_line = "Pasted into ".to_owned().concat(self.form_field.title());
    }
}

// ---------------------------------------------------------------------------------------------
// Completion
// ---------------------------------------------------------------------------------------------

/// What a key leaves to be done outside: the directory of a lookup to be listed for a completion.
#[derive(Debug)]
pub struct CompletionRequest {
    pub field: FormField,
    pub direction: CompletionDirection,
    pub query: CompletionQuery,
}

/// How the status line tells which completion is selected.
pub open spec fn completion_status(field: FormField, selected: usize, total: nat) -> Seq<char> {
    subject_of(field) + " completion "@ + decimal_text((selected + 1) as nat) + "/"@
        + decimal_text(total)
}

/// How the status line tells which completion is selected.
fn completion_status_line(field: FormField, selected: usize, total: usize) -> (line: String)
    requires
        selected < total,
    ensures
        line@ == completion_status(field, selected, total as nat),
{
    field.completion_subject().to_owned().concat(" completion ").concat(
        decimal((selected + 1) as u64).as_str(),
    ).concat("/").concat(decimal(total as u64).as_str())
}

/// Whether all candidates share more than what is typed, so that the text is expanded to what
/// they share before they are stepped through.
pub open spec fn expands(seed: Seq<char>, candidates: Seq<CandidateModel>) -> bool {
    &&& candidates.len() > 1
    &&& encode_utf8(shared_by_all(candidates)).len() > encode_utf8(seed).len()
}

/// The first candidate in a direction.
pub open spec fn first_selected(total: nat, direction: CompletionDirection) -> usize {
    match direction {
        CompletionDirection::Forward => 0,
        CompletionDirection::Backward => (total - 1) as usize,
    }
}

/// `candidates` are those that a listing gives, in their order.
pub open spec fn collected(
    lookup: LookupModel,
    mode: PathCompletionMode,
    listing: Listing,
    candidates: Seq<CandidateModel>,
) -> bool {
    match listing {
        Listing::Entries(entries) => is_stable_sort(
            offered(entries@, lookup, mode),
            candidate_ranks(offered(entries@, lookup, mode)),
            candidates,
        ),
        _ => candidates.len() == 0,
    }
}

impl AppModel {
    /// The state after a step to the next of the completions that are stepped through.
    pub open spec fn after_step(self, direction: CompletionDirection) -> AppModel {
        let field = self.form_field;
        let completion = self.completion->0.stepped(direction);
        AppModel { completion: Some(completion), ..self }.with_text(
            field,
            completion.replacement(),
        ).with_status(
            completion_status(field, completion.selected, completion.candidates.len()),
        )
    }

    /// The state after the candidates for a field became known: their common prefix is put into
    /// the field where it is more than what is typed, and else the first of them.
    pub open spec fn after_candidates(
        self,
        field: FormField,
        direction: CompletionDirection,
        seed: Seq<char>,
        candidates: Seq<CandidateModel>,
    ) -> AppModel {
        if candidates.len() == 0 {
            AppModel { completion: None, ..self }.with_status(
                "No "@ + subject_of(field) + " matches found"@,
            )
        } else if expands(seed, candidates) {
            let prefix = shared_by_all(candidates);
            AppModel { completion: None, ..self }.with_text(field, prefix).with_status(
                "Expanded to common prefix: "@ + prefix,
            )
        } else {
            let selected = first_selected(candidates.len(), direction);
            AppModel {
                completion: Some(
                    CompletionModel { field, seed_input: seed, candidates, selected },
                ),
                ..self
            }.with_text(field, candidates[selected as int].replacement).with_status(
                completion_status(field, selected, candidates.len()),
            )
        }
    }
}

impl App {
    /// Completes the text of the active field: says so where none is completed there, goes on
    /// with the completions that are stepped through, or asks for the directory to be listed that
    /// `complete_from_listing` is then called for.
    pub fn complete_active_input(
        &mut self,
        direction: CompletionDirection,
        env: &UserEnvironment,
    ) -> (res: Result<KeyOutcome, AppError>)
        requires
            old(self)@.inv(),
        ensures
            (final(self)@, effect_of(res)) == old(self)@.after_completing(direction, *env),
            final(self)@.inv(),
    {
        let field = self.form_field;
        let current_input = self.active_value(field).trim().to_owned();
        if !field.supports_local_completion(current_input.as_str()) {
            self.clear_completion();
            self.status_line =
            "Local path completion is disabled for HTTP/HTTPS and magnet sources".to_owned();
            return Ok(KeyOutcome::Handled);
        }
        let steps_on = match &self.completion_state {
            Some(state) => state.can_continue(field, current_input.as_str()),
            None => false,
        };
        if steps_on {
            if let Some(mut state) = self.completion_state.take() {
                state.step(direction);
                let replacement = state.current_replacement().to_owned();
                let line = completion_status_line(field, state.selected, state.candidates.len());
                self.completion_state = Some(state);
                self.set_active_value(field, replacement);
                self.status_line = line;
            }
            return Ok(KeyOutcome::Handled);
        }
        match completion_query(self.active_value(field), env) {
            Ok(query) => Ok(KeyOutcome::Complete(CompletionRequest { field, direction, query })),
            Err(error) => Err(AppError::Completion(CompletionError::Path(error))),
        }
    }

    /// Completes the text of a field from the listing that a request asked for.
    pub fn complete_from_listing(&mut self, request: CompletionRequest, listing: &Listing) -> (res:
        Result<(), AppError>)
        requires
            old(self)@.inv(),
        ensures
            final(self)@.inv(),
            match *listing {
                Listing::Failed { failure, detail } if !is_tolerated(failure) => {
                    &&& final(self)@ == old(self)@
                    &&& res == Err::<(), AppError>(
                        AppError::Completion(
                            CompletionError::Unreadable {
                                dir: request.query.lookup.search_dir,
                                detail,
                            },
                        ),
                    )
                },
                _ => {
                    &&& res == Ok::<(), AppError>(())
                    &&& exists|candidates: Seq<CandidateModel>| #[trigger]
                        collected(
                            request.query.lookup@,
                            mode_of(request.field),
                            *listing,
                            candidates,
                        ) && final(self)@ == old(self)@.after_candidates(
                            request.field,
                            request.direction,
                            request.query.seed_input@,
                            candidates,
                        )
                },
            },
    {
        let CompletionRequest { field, direction, query } = request;
        let ghost lookup = query.lookup@;
        let set = match collect_candidates(query, field.completion_mode(), listing) {
            Ok(set) => set,
            Err(error) => {
                return Err(AppError::Completion(error));
            },
        };
        let ghost candidates = candidate_models(set.candidates@);
        assert(collected(lookup, mode_of(field), *listing, candidates));
        self.apply_candidates(field, direction, set);
        Ok(())
    }

    /// Completes the text of a field from its candidates.
    pub fn apply_candidates(
        &mut self,
        field: FormField,
        direction: CompletionDirection,
        set: CompletionSet,
    )
        requires
            old(self)@.inv(),
        ensures
            final(self)@ == old(self)@.after_candidates(
                field,
                direction,
                set.seed_input@,
                candidate_models(set.candidates@),
            ),
            final(self)@.inv(),
    {
        if set.candidates.len() == 0 {
            self.clear_completion();
            self.status_line = "No ".to_owned().concat(field.completion_subject()).concat(
                " matches found",
            );
            return;
        }
        if set.candidates.len() > 1 {
            if let Some(prefix) = set.common_prefix() {
                self.clear_completion();
                self.status_line = "Expanded to common prefix: ".to_owned().concat(
                    prefix.as_str(),
                );
                self.set_active_value(field, prefix);
                return;
            }
        }
        let total: usize = set.candidates.len();
        let selected: usize = match direction {
            CompletionDirection::Forward => 0,
            CompletionDirection::Backward => total - 1,
        };
        let replacement = set.candidates[selected].replacement.clone();
        self.set_active_value(field, replacement);
        self.completion_state = Some(
            CompletionState {
                field,
                seed_input: set.seed_input,
                candidates: set.candidates,
                selected,
            },
        );
        self.status_line = completion_status_line(field, selected, total);
    }
}

// ---------------------------------------------------------------------------------------------
// Queueing
// ---------------------------------------------------------------------------------------------

/// What a key leaves to be done outside: a torrent to be queued.
#[derive(Debug)]
pub struct SubmitRequest {
    pub source_input: String,
    pub download_dir: PathBuf,
}

/// What came of queueing a torrent.
#[derive(Debug)]
pub enum SubmitResult {
    /// It was queued under a number; these are the torrents of the session since.
    Queued { id: usize, downloads: Vec<TorrentSnapshot> },
    /// It was not queued.
    Failed(QueueError),
}

impl AppModel {
    /// The state after a torrent was queued, or was not: the list of downloads comes up with the
    /// new one in it, or the status line tells what went wrong.
    pub open spec fn after_submit(
        self,
        source: Seq<char>,
        dir: Seq<u8>,
        result: SubmitResult,
    ) -> AppModel {
        match result {
            SubmitResult::Queued { id, downloads } => AppModel {
                status_line: "Torrent #"@ + decimal_text(id as nat) + " queued: "@ + source
                    + " -> "@ + displayed(dir),
                torrent_source: Seq::empty(),
                completion: None,
                screen: Screen::Downloads,
                focus: FocusArea::Content,
                ..self
            }.with_downloads(downloads@),
            SubmitResult::Failed(error) => self.with_status(
                "Failed to queue torrent: "@ + one_line(error.told()),
            ),
        }
    }
}

impl App {
    /// What the form asks to be queued.
    pub fn submit_torrent(&self, env: &UserEnvironment) -> (res: Result<SubmitRequest, AppError>)
        ensures
            match resolved(self@.download_dir, *env) {
                Ok(dir) => {
                    &&& res is Ok
                    &&& res->Ok_0.source_input@ == trimmed(self@.torrent_source)
                    &&& path_bytes(res->Ok_0.download_dir) == dir
                },
                Err(error) => res == Err::<SubmitRequest, AppError>(
                    AppError::OutputDirectory(error),
                ),
            },
    {
        let source_input = self.active_value(FormField::TorrentSource).trim().to_owned();
        match resolve_user_path(self.active_value(FormField::DownloadDir), env) {
            Ok(download_dir) => Ok(SubmitRequest { source_input, download_dir }),
            Err(error) => Err(AppError::OutputDirectory(error)),
        }
    }

    /// Takes what came of queueing what the form asked for.
    pub fn finish_submit(&mut self, request: &SubmitRequest, result: SubmitResult)
        requires
            old(self)@.inv(),
        ensures
            final(self)@ == old(self)@.after_submit(
                request.source_input@,
                path_bytes(request.download_dir),
                result,
            ),
            final(self)@.inv(),
    {
        match result {
            SubmitResult::Queued { id, downloads } => {
                self.status_line = "Torrent #".to_owned().concat(
                    decimal(id as u64).as_str(),
                ).concat(" queued: ").concat(request.source_input.as_str()).concat(" -> ").concat(
                    display(&request.download_dir).as_str(),
                );
                self.torrent_source.clear();
                self.clear_completion();
                self.set_screen(Screen::Downloads);
                self.focus = FocusArea::Content;
                self.refresh_downloads(downloads);
            },
            SubmitResult::Failed(error) => {
                self.status_line = "Failed to queue torrent: ".to_owned().concat(
                    error.message().as_str(),
                );
            },
        }
    }
}

// ---------------------------------------------------------------------------------------------
// Keys
// ---------------------------------------------------------------------------------------------

/// What a key leaves to be done outside.
#[derive(Debug)]
pub enum KeyOutcome {
    /// Nothing.
    Handled,
    /// To list a directory, and then to call `complete_from_listing`.
    Complete(CompletionRequest),
    /// To queue a torrent, and then to call `finish_submit`.
    Submit(SubmitRequest),
}

/// A `KeyOutcome`, or the error in its place, in contracts.
pub enum KeyEffect {
    Handled,
    Complete {
        field: FormField,
        direction: CompletionDirection,
        seed_input: Seq<char>,
        lookup: LookupModel,
    },
    Submit { source_input: Seq<char>, download_dir: Seq<u8> },
    Failed(AppError),
}

/// The effect that an outcome tells of.
pub open spec fn effect_of(res: Result<KeyOutcome, AppError>) -> KeyEffect {
    match res {
        Ok(KeyOutcome::Handled) => KeyEffect::Handled,
        Ok(KeyOutcome::Complete(request)) => KeyEffect::Complete {
            field: request.field,
            direction: request.direction,
            seed_input: request.query.seed_input@,
            lookup: request.query.lookup@,
        },
        Ok(KeyOutcome::Submit(request)) => KeyEffect::Submit {
            source_input: request.source_input@,
            download_dir: path_bytes(request.download_dir),
        },
        Err(error) => KeyEffect::Failed(error),
    }
}

/// Whether a key leaves the interface, wherever the focus is: F10, or Control and C.
pub open spec fn quits(key: Key) -> bool {
    key.code == KeyCode::F(10) || (key.control && key.code == KeyCode::Char('c'))
}

impl AppModel {
    /// The state and the effect of completing the active field.
    pub open spec fn after_completing(
        self,
        direction: CompletionDirection,
        env: UserEnvironment,
    ) -> (AppModel, KeyEffect) {
        let field = self.form_field;
        let typed = trimmed(self.text_in(field));
        if !field_completes(field, typed) {
            (
                AppModel { completion: None, ..self }.with_status(
                    "Local path completion is disabled for HTTP/HTTPS and magnet sources"@,
                ),
                KeyEffect::Handled,
            )
        } else if self.steps_on() {
            (self.after_step(direction), KeyEffect::Handled)
        } else {
            match lookup_for(typed, env) {
                Ok(lookup) => (
                    self,
                    KeyEffect::Complete { field, direction, seed_input: typed, lookup },
                ),
                Err(error) => (
                    self,
                    KeyEffect::Failed(AppError::Completion(CompletionError::Path(error))),
                ),
            }
        }
    }

    /// The state and the effect of a key on the form.
    pub open spec fn after_form_key(self, key: Key, env: UserEnvironment) -> (
        AppModel,
        KeyEffect,
    ) {
        let text = self.text_in(self.form_field);
        match key.code {
            KeyCode::Up | KeyCode::Down => (
                AppModel { form_field: other_field(self.form_field), ..self },
                KeyEffect::Handled,
            ),
            KeyCode::Tab => self.after_completing(CompletionDirection::Forward, env),
            KeyCode::BackTab => self.after_completing(CompletionDirection::Backward, env),
            KeyCode::Backspace => (
                self.with_typed(
                    if text.len() == 0 {
                        text
                    } else {
                        text.drop_last()
                    },
                ),
                KeyEffect::Handled,
            ),
            KeyCode::Delete => (self.with_typed(Seq::empty()), KeyEffect::Handled),
            KeyCode::Enter => match resolved(self.download_dir, env) {
                Ok(dir) => (
                    self,
                    KeyEffect::Submit {
                        source_input: trimmed(self.torrent_source),
                        download_dir: dir,
                    },
                ),
                Err(error) => (self, KeyEffect::Failed(AppError::OutputDirectory(error))),
            },
            KeyCode::Char(c) => if key.control || key.alt {
                (self, KeyEffect::Handled)
            } else {
                (self.with_typed(text.push(c)), KeyEffect::Handled)
            },
            _ => (self, KeyEffect::Handled),
        }
    }

    /// The state and the effect of a key: some leave the interface or open the help wherever the
    /// focus is. The open help takes the others, and is closed by Esc or Enter; so does an open
    /// dialog. Else some move the focus, and the rest go to the menu or to the screen that has
    /// the focus.
    pub open spec fn after_key(self, key: Key, env: UserEnvironment) -> (AppModel, KeyEffect) {
        if quits(key) {
            (AppModel { should_quit: true, ..self }, KeyEffect::Handled)
        } else if key.code == KeyCode::F(1) {
            (AppModel { help_open: true, ..self }, KeyEffect::Handled)
        } else if self.help_open {
            (
                AppModel {
                    help_open: key.code != KeyCode::Esc && key.code != KeyCode::Enter,
                    ..self
                },
                KeyEffect::Handled,
            )
        } else if let Some(dialog) = self.dialog {
            (self.after_dialog_key(dialog, key), KeyEffect::Handled)
        } else if key.code == KeyCode::Left || key.code == KeyCode::Esc {
            (AppModel { focus: FocusArea::Menu, ..self }, KeyEffect::Handled)
        } else if key.code == KeyCode::Right {
            (AppModel { focus: FocusArea::Content, ..self }, KeyEffect::Handled)
        } else {
            match (self.focus, self.screen) {
                (FocusArea::Menu, _) => (self.after_menu_key(key.code), KeyEffect::Handled),
                (FocusArea::Content, Screen::AddTorrent) => self.after_form_key(key, env),
                (FocusArea::Content, Screen::Downloads) => (
                    self.after_downloads_key(key),
                    KeyEffect::Handled,
                ),
                (FocusArea::Content, Screen::Server) => (self, KeyEffect::Handled),
            }
        }
    }
}

impl App {
    /// A key on the form.
    pub fn handle_add_torrent_key(&mut self, key: Key, env: &UserEnvironment) -> (res: Result<
        KeyOutcome,
        AppError,
    >)
        requires
            old(self)@.inv(),
        ensures
            (final(self)@, effect_of(res)) == old(self)@.after_form_key(key, *env),
            final(self)@.inv(),
    {
        match key.code {
            KeyCode::Up => {
                self.form_field = self.form_field.previous();
            },
            KeyCode::Down => {
                self.form_field = self.form_field.next();
            },
            KeyCode::Tab => {
                return self.complete_active_input(CompletionDirection::Forward, env);
            },
            KeyCode::BackTab => {
                return self.complete_active_input(CompletionDirection::Backward, env);
            },
            KeyCode::Backspace => self.pop_active_input(),
            KeyCode::Delete => self.clear_active_input(),
            KeyCode::Enter => {
                return match self.submit_torrent(env) {
                    Ok(request) => Ok(KeyOutcome::Submit(request)),
                    Err(error) => Err(error),
                };
            },
            KeyCode::Char(character) => {
                if !(key.control || key.alt) {
                    self.push_active_input(character);
                }
            },
            _ => {},
        }
        Ok(KeyOutcome::Handled)
    }

    /// A key.
    pub fn handle_key(&mut self, key: Key, env: &UserEnvironment) -> (res: Result<
        KeyOutcome,
        AppError,
    >)
        requires
            old(self)@.inv(),
        ensures
            (final(self)@, effect_of(res)) == old(self)@.after_key(key, *env),
            final(self)@.inv(),
    {
        if key.code == KeyCode::F(10) || (key.control && key.code == KeyCode::Char('c')) {
            self.should_quit = true;
            return Ok(KeyOutcome::Handled);
        }
        if key.code == KeyCode::F(1) {
            self.help_open = true;
            return Ok(KeyOutcome::Handled);
        }
        if self.help_open {
            self.help_open = key.code != KeyCode::Esc && key.code != KeyCode::Enter;
            return Ok(KeyOutcome::Handled);
        }
        if let Some(dialog) = self.dialog.take() {
            self.handle_dialog_key(dialog, key);
            return Ok(KeyOutcome::Handled);
        }
        match key.code {
            KeyCode::Left | KeyCode::Esc => {
                self.focus = FocusArea::Menu;
                return Ok(KeyOutcome::Handled);
            },
            KeyCode::Right => {
                self.focus = FocusArea::Content;
                return Ok(KeyOutcome::Handled);
            },
            _ => {},
        }
        match self.focus {
            FocusArea::Menu => {
                self.handle_menu_key(key);
                Ok(KeyOutcome::Handled)
            },
            FocusArea::Content => match self.screen {
                Screen::AddTorrent => self.handle_add_torrent_key(key, env),
                Screen::Downloads => {
                    self.handle_downloads_key(key);
                    Ok(KeyOutcome::Handled)
                },
                Screen::Server => Ok(KeyOutcome::Handled),
            },
        }
    }
}

} // verus!
