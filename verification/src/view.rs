//! What the screens of the terminal interface show.
use crate::app::{App, AppModel};
use crate::downloads_view::{
    is_shown, shown_positions, sort_title, Dialog, DialogModel, SortBy,
};
use crate::engine::{optional_text, SnapshotModel, TorrentSnapshot};
use crate::errors::{one_line, CompletionError};
use crate::form::{
    field_completes, placeholder_of, short_title_of, title_of, FocusArea, FormField, Screen,
};
use crate::path_completion::{CandidateModel, CompletionCandidate};
use crate::order::picked;
use crate::paths::{display, displayed, path_bytes};
use crate::preview::{CompletionPreview, PreviewModel};
use crate::size::{format_bytes, size_text};
use crate::text::{decimal, decimal_text};
use std::path::PathBuf;
use vstd::prelude::*;
use vstd::string::*;

verus! {

/// The colour of a border or a mark.
#[derive(Clone, Copy, Debug, PartialEq, Eq, Structural)]
pub enum Tone {
    Yellow,
    DarkGray,
    Green,
    Blue,
}

/// The colour of the border around a part of the screen.
pub open spec fn border_tone(active: bool) -> Tone {
    if active {
        Tone::Yellow
    } else {
        Tone::DarkGray
    }
}

/// The colour of the border around a part of the screen, by whether keys go there.
pub fn border(active: bool) -> (tone: Tone)
    ensures
        tone == border_tone(active),
{
    if active {
        Tone::Yellow
    } else {
        Tone::DarkGray
    }
}

/// Lines as texts of their own.
fn owned(lines: Vec<&'static str>) -> (res: Vec<String>)
    ensures
        res.deep_view() == lines.deep_view(),
{
    let mut res: Vec<String> = Vec::new();
    let mut i: usize = 0;
    while i < lines.len()
        invariant
            i <= lines@.len(),
            res.deep_view() == lines.deep_view().take(i as int),
        decreases lines@.len() - i,
    {
        let ghost before = res.deep_view();
        res.push(lines[i].to_owned());
        assert(res.deep_view() =~= before.push(lines@[i as int]@));
        assert(lines.deep_view().take(i + 1) =~= lines.deep_view().take(i as int).push(
            lines@[i as int]@,
        ));
        i = i + 1;
    }
    assert(lines.deep_view().take(i as int) =~= lines.deep_view());
    res
}

// ---------------------------------------------------------------------------------------------
// Header and footer
// ---------------------------------------------------------------------------------------------

/// What the footer says of the keys of a screen.
pub open spec fn keys_of(screen: Screen) -> Seq<char> {
    match screen {
        Screen::AddTorrent =>
            "Left/Right focus | Tab local completion | Up/Down switch field | Enter add torrent | Esc menu | Ctrl+C/F10 exit"@,
        Screen::Downloads =>
            "Left/Right focus | Up/Down select torrent | / filter | s sort | r reverse | m compact | c clear filter | x reset view | q quit | Esc menu | F1 help | Ctrl+C/F10 exit"@,
        Screen::Server => "Left/Right focus | Esc menu | Ctrl+C/F10 exit"@,
    }
}

impl App {
    /// What the header says of the focus.
    pub fn header_focus(&self) -> (text: String)
        ensures
            text@ == "focus: "@ + (match self@.focus {
                FocusArea::Menu => "menu"@,
                FocusArea::Content => "content"@,
            }),
    {
        let focus = match self.focus {
            FocusArea::Menu => "menu",
            FocusArea::Content => "content",
        };
        "focus: ".to_owned().concat(focus)
    }

    /// What the footer says: the status, and the keys of the screen.
    pub fn footer_lines(&self) -> (lines: Vec<String>)
        ensures
            lines.deep_view() == seq![self@.status_line, keys_of(self@.screen)],
    {
        let keys = match self.screen {
            Screen::AddTorrent =>
                "Left/Right focus | Tab local completion | Up/Down switch field | Enter add torrent | Esc menu | Ctrl+C/F10 exit",
            Screen::Downloads =>
                "Left/Right focus | Up/Down select torrent | / filter | s sort | r reverse | m compact | c clear filter | x reset view | q quit | Esc menu | F1 help | Ctrl+C/F10 exit",
            Screen::Server => "Left/Right focus | Esc menu | Ctrl+C/F10 exit",
        };
        let mut lines: Vec<String> = Vec::new();
        lines.push(self.status_line.clone());
        lines.push(keys.to_owned());
        assert(lines.deep_view() =~= seq![self@.status_line, keys_of(self@.screen)]);
        lines
    }
}

// ---------------------------------------------------------------------------------------------
// The form
// ---------------------------------------------------------------------------------------------

/// What a field of the form shows.
#[derive(Debug)]
pub struct InputView {
    pub title: &'static str,
    pub text: String,
    pub is_placeholder: bool,
    pub border: Tone,
}

impl App {
    /// What a field of the form shows: its text, or its placeholder while it is empty.
    pub fn input_view(&self, field: FormField) -> (view: InputView)
        ensures
            view.title@ == title_of(field),
            view.is_placeholder == (self@.text_in(field).len() == 0),
            view.text@ == (if view.is_placeholder {
                placeholder_of(field)
            } else {
                self@.text_in(field)
            }),
            view.border == border_tone(
                self@.focus == FocusArea::Content && self@.form_field == field,
            ),
    {
        let value = self.active_value(field);
        let is_placeholder = value.is_empty();
        let text = if is_placeholder {
            field.placeholder().to_owned()
        } else {
            value.to_owned()
        };
        InputView {
            title: field.title(),
            text,
            is_placeholder,
            border: border(self.focus == FocusArea::Content && self.form_field == field),
        }
    }
}

/// What stands where no completions are shown.
pub open spec fn empty_text(field: FormField, input: Seq<char>) -> Seq<Seq<char>> {
    if !field_completes(field, input) {
        seq![
            "This field currently contains a URL or magnet link."@,
            "Press Enter to start downloading it immediately."@,
            "Local path completion is only available for filesystem paths."@,
        ]
    } else {
        match field {
            FormField::TorrentSource => seq![
                "This field accepts three source types:"@,
                "1. Local .torrent files"@,
                "2. HTTP/HTTPS URLs to .torrent files"@,
                "3. magnet: links"@,
                ""@,
                "For local files, press Tab to autocomplete from /."@,
            ],
            FormField::DownloadDir => seq![
                "Type a path and press Tab to autocomplete."@,
                "An empty field starts browsing from /."@,
                "Only directories are listed here."@,
            ],
        }
    }
}

impl App {
    /// What stands where no completions are shown.
    pub fn completion_empty_text(&self) -> (lines: Vec<String>)
        ensures
            lines.deep_view() == empty_text(
                self@.form_field,
                self@.text_in(self@.form_field),
            ),
    {
        let field = self.form_field;
        let lines = if field == FormField::TorrentSource && !field.supports_local_completion(
            self.active_value(field),
        ) {
            owned(
                vec![
                    "This field currently contains a URL or magnet link.",
                    "Press Enter to start downloading it immediately.",
                    "Local path completion is only available for filesystem paths.",
                ],
            )
        } else {
            match field {
                FormField::TorrentSource => owned(
                    vec![
                        "This field accepts three source types:",
                        "1. Local .torrent files",
                        "2. HTTP/HTTPS URLs to .torrent files",
                        "3. magnet: links",
                        "",
                        "For local files, press Tab to autocomplete from /.",
                    ],
                ),
                FormField::DownloadDir => owned(
                    vec![
                        "Type a path and press Tab to autocomplete.",
                        "An empty field starts browsing from /.",
                        "Only directories are listed here.",
                    ],
                ),
            }
        };
        assert(lines.deep_view() =~= empty_text(field, self@.text_in(field)));
        lines
    }
}

// ---------------------------------------------------------------------------------------------
// The panel of completions
// ---------------------------------------------------------------------------------------------

/// A completion as a row of the panel.
#[derive(Debug)]
pub struct CandidateRow {
    pub replacement: String,
    pub label: String,
    pub tone: Tone,
}

/// A `CandidateRow` in contracts.
pub struct RowModel {
    pub replacement: Seq<char>,
    pub label: Seq<char>,
    pub tone: Tone,
}

impl View for CandidateRow {
    type V = RowModel;

    open spec fn view(&self) -> RowModel {
        RowModel { replacement: self.replacement@, label: self.label@, tone: self.tone }
    }
}

/// What the panel of completions shows.
#[derive(Debug)]
pub enum PanelView {
    /// There are no completions: advice stands in their place.
    Empty { title: String, lines: Vec<String> },
    /// The completions, and which of them is marked.
    Listed { title: String, rows: Vec<CandidateRow>, selected: Option<usize> },
    /// The completions could not be found out.
    Unavailable { title: String, lines: Vec<String> },
}

/// A `PanelView` in contracts.
#[verifier::ext_equal]
pub enum PanelModel {
    Empty { title: Seq<char>, lines: Seq<Seq<char>> },
    Listed { title: Seq<char>, rows: Seq<RowModel>, selected: Option<usize> },
    Unavailable { title: Seq<char>, lines: Seq<Seq<char>> },
}

/// Rows in contracts.
pub open spec fn row_models(rows: Seq<CandidateRow>) -> Seq<RowModel> {
    Seq::new(rows.len(), |i: int| rows[i]@)
}

impl View for PanelView {
    type V = PanelModel;

    open spec fn view(&self) -> PanelModel {
        match *self {
            PanelView::Empty { title, lines } => PanelModel::Empty {
                title: title@,
                lines: lines.deep_view(),
            },
            PanelView::Listed { title, rows, selected } => PanelModel::Listed {
                title: title@,
                rows: row_models(rows@),
                selected,
            },
            PanelView::Unavailable { title, lines } => PanelModel::Unavailable {
                title: title@,
                lines: lines.deep_view(),
            },
        }
    }
}

/// How a candidate is shown: its text, what kind of entry it is, and the colour of the kind.
pub open spec fn row_of(candidate: CandidateModel) -> RowModel {
    RowModel {
        replacement: candidate.replacement,
        label: "["@ + (if candidate.is_dir {
            "dir"@
        } else {
            "torrent"@
        }) + "]"@,
        tone: if candidate.is_dir {
            Tone::Green
        } else {
            Tone::Blue
        },
    }
}

/// How candidates are shown.
pub open spec fn rows_of(candidates: Seq<CandidateModel>) -> Seq<RowModel> {
    Seq::new(candidates.len(), |i: int| row_of(candidates[i]))
}

/// The title over completions: how many there are, and which of them are shown where not all are.
pub open spec fn panel_title(field: FormField, preview: PreviewModel) -> Seq<char> {
    if preview.total_matches > preview.candidates.len() {
        short_title_of(field) + " Completion (showing "@ + decimal_text(
            (preview.start_index + 1) as nat,
        ) + "-"@ + decimal_text(
            (preview.start_index + preview.candidates.len()) as nat,
        ) + " of "@ + decimal_text(preview.total_matches as nat) + ")"@
    } else {
        short_title_of(field) + " Completion ("@ + decimal_text(preview.total_matches as nat)
            + ")"@
    }
}

/// What the panel shows of a preview, or of the error in its place.
pub open spec fn panel_of(
    app: AppModel,
    preview: Result<PreviewModel, CompletionError>,
) -> PanelModel {
    let field = app.form_field;
    match preview {
        Ok(preview) => if preview.candidates.len() == 0 {
            PanelModel::Empty {
                title: short_title_of(field) + " Completion"@,
                lines: empty_text(field, app.text_in(field)),
            }
        } else {
            PanelModel::Listed {
                title: panel_title(field, preview),
                rows: rows_of(preview.candidates),
                selected: preview.selected,
            }
        },
        Err(error) => PanelModel::Unavailable {
            title: "Path Completion"@,
            lines: seq!["Autocomplete is currently unavailable."@, one_line(error.told())],
        },
    }
}

/// How a candidate is shown.
pub fn candidate_row(candidate: &CompletionCandidate) -> (row: CandidateRow)
    ensures
        row@ == row_of(candidate@),
{
    CandidateRow {
        replacement: candidate.replacement.clone(),
        label: "[".to_owned().concat(candidate.kind_label()).concat("]"),
        tone: if candidate.is_dir {
            Tone::Green
        } else {
            Tone::Blue
        },
    }
}

impl App {
    /// What the panel shows of a preview, or of the error in its place.
    pub fn completion_panel(&self, preview: &Result<CompletionPreview, CompletionError>) -> (panel:
        PanelView)
        requires
            preview is Ok ==> preview->Ok_0@.inv(),
        ensures
            panel@ == panel_of(
                self@,
                match *preview {
                    Ok(preview) => Ok(preview@),
                    Err(error) => Err(error),
                },
            ),
    {
        let field = self.form_field;
        match preview {
            Err(error) => {
                let mut lines: Vec<String> = Vec::new();
                lines.push("Autocomplete is currently unavailable.".to_owned());
                lines.push(error.message());
                assert(lines.deep_view() =~= seq![
                    "Autocomplete is currently unavailable."@,
                    one_line(error.told()),
                ]);
                PanelView::Unavailable { title: "Path Completion".to_owned(), lines }
            },
            Ok(preview) => {
                if preview.candidates.len() == 0 {
                    return PanelView::Empty {
                        title: field.short_title().to_owned().concat(" Completion"),
                        lines: self.completion_empty_text(),
                    };
                }
                let total = decimal(preview.total_matches as u64);
                let title = if preview.total_matches > preview.candidates.len() {
                    let first = decimal((preview.start_index + 1) as u64);
                    let last = decimal((preview.start_index + preview.candidates.len()) as u64);
                    field.short_title().to_owned().concat(" Completion (showing ").concat(
                        first.as_str(),
                    ).concat("-").concat(last.as_str()).concat(" of ").concat(
                        total.as_str(),
                    ).concat(")")
                } else {
                    field.short_title().to_owned().concat(" Completion (").concat(
                        total.as_str(),
                    ).concat(")")
                };
                let mut rows: Vec<CandidateRow> = Vec::new();
                let mut i: usize = 0;
                while i < preview.candidates.len()
                    invariant
                        i <= preview.candidates@.len(),
                        rows@.len() == i,
                        forall|j: int|
                            0 <= j < i ==> (#[trigger] rows@[j])@ == row_of(
                                preview.candidates@[j]@,
                            ),
                    decreases preview.candidates@.len() - i,
                {
                    rows.push(candidate_row(&preview.candidates[i]));
                    i = i + 1;
                }
                assert(row_models(rows@) =~= rows_of(preview@.candidates));
                PanelView::Listed { title, rows, selected: preview.selected }
            },
        }
    }
}

// ---------------------------------------------------------------------------------------------
// Help and dialogs
// ---------------------------------------------------------------------------------------------

/// What the help says.
pub open spec fn help_text() -> Seq<Seq<char>> {
    seq![
        "Main controls"@,
        "F1: open help"@,
        "F10 or Ctrl+C: force exit"@,
        "Left or Esc: go to the menu"@,
        "Right: go to the content"@,
        "Tab / Shift+Tab: cycle local path completion"@,
        "Enter: queue torrent from the current source field"@,
        "Up / Down: switch active input field or move in lists"@,
        ""@,
        "Downloads screen"@,
        "/: open filter dialog"@,
        "s: open sort dialog"@,
        "r: reverse sort order"@,
        "m: toggle compact/expanded view"@,
        "c: clear filter with confirmation"@,
        "x: reset downloads view"@,
        "q: quit with confirmation"@,
        ""@,
        "Esc or Enter: close help"@,
    ]
}

/// What the help says.
pub fn help_lines() -> (lines: Vec<String>)
    ensures
        lines.deep_view() == help_text(),
{
    let lines = owned(
        vec![
            "Main controls",
            "F1: open help",
            "F10 or Ctrl+C: force exit",
            "Left or Esc: go to the menu",
            "Right: go to the content",
            "Tab / Shift+Tab: cycle local path completion",
            "Enter: queue torrent from the current source field",
            "Up / Down: switch active input field or move in lists",
            "",
            "Downloads screen",
            "/: open filter dialog",
            "s: open sort dialog",
            "r: reverse sort order",
            "m: toggle compact/expanded view",
            "c: clear filter with confirmation",
            "x: reset downloads view",
            "q: quit with confirmation",
            "",
            "Esc or Enter: close help",
        ],
    );
    assert(lines.deep_view() =~= help_text());
    lines
}

/// The title of a dialog.
pub open spec fn dialog_title_of(dialog: DialogModel) -> Seq<char> {
    match dialog {
        DialogModel::Filter(_) => "Filter downloads"@,
        DialogModel::Sort(_) => "Sort downloads"@,
        DialogModel::ConfirmClear => "Clear filter"@,
        DialogModel::ConfirmQuit => "Quit"@,
    }
}

/// A sort key in the dialog that chooses one.
pub open spec fn choice_line_of(sort: SortBy, choice: SortBy) -> Seq<char> {
    (if sort == choice {
        "> "@
    } else {
        "  "@
    }) + sort_title(sort)
}

/// What a dialog says.
pub open spec fn dialog_lines_of(dialog: DialogModel) -> Seq<Seq<char>> {
    match dialog {
        DialogModel::Filter(draft) => seq![
            "Name holds: "@ + draft,
            "Enter apply | Delete empty | Esc cancel"@,
        ],
        DialogModel::Sort(choice) => seq![
            choice_line_of(SortBy::Number, choice),
            choice_line_of(SortBy::Name, choice),
            choice_line_of(SortBy::Size, choice),
            choice_line_of(SortBy::Downloaded, choice),
            "Up/Down choose | Enter apply | Esc cancel"@,
        ],
        DialogModel::ConfirmClear => seq![
            "Clear the filter and show all downloads?"@,
            "Enter/y yes | Esc/n no"@,
        ],
        DialogModel::ConfirmQuit => seq!["Quit the program?"@, "Enter/y yes | Esc/n no"@],
    }
}

/// A sort key in the dialog that chooses one.
fn choice_line(sort: SortBy, choice: SortBy) -> (line: String)
    ensures
        line@ == choice_line_of(sort, choice),
{
    let mark = if sort == choice {
        "> "
    } else {
        "  "
    };
    mark.to_owned().concat(sort.title())
}

impl Dialog {
    /// The title of the dialog.
    pub fn title(&self) -> (title: &'static str)
        ensures
            title@ == dialog_title_of(self@),
    {
        match self {
            Dialog::Filter(_) => "Filter downloads",
            Dialog::Sort(_) => "Sort downloads",
            Dialog::ConfirmClear => "Clear filter",
            Dialog::ConfirmQuit => "Quit",
        }
    }

    /// What the dialog says.
    pub fn lines(&self) -> (lines: Vec<String>)
        ensures
            lines.deep_view() == dialog_lines_of(self@),
    {
        let mut lines: Vec<String> = Vec::new();
        match self {
            Dialog::Filter(draft) => {
                lines.push("Name holds: ".to_owned().concat(draft.as_str()));
                lines.push("Enter apply | Delete empty | Esc cancel".to_owned());
            },
            Dialog::Sort(choice) => {
                lines.push(choice_line(SortBy::Number, *choice));
                lines.push(choice_line(SortBy::Name, *choice));
                lines.push(choice_line(SortBy::Size, *choice));
                lines.push(choice_line(SortBy::Downloaded, *choice));
                lines.push("Up/Down choose | Enter apply | Esc cancel".to_owned());
            },
            Dialog::ConfirmClear => {
                lines.push("Clear the filter and show all downloads?".to_owned());
                lines.push("Enter/y yes | Esc/n no".to_owned());
            },
            Dialog::ConfirmQuit => {
                lines.push("Quit the program?".to_owned());
                lines.push("Enter/y yes | Esc/n no".to_owned());
            },
        }
        assert(lines.deep_view() =~= dialog_lines_of(self@));
        lines
    }
}

// ---------------------------------------------------------------------------------------------
// The form's notes and the server
// ---------------------------------------------------------------------------------------------

/// What stands in front of the path of a directory, and the path.
fn with_path(text: &str, path: &PathBuf) -> (line: String)
    ensures
        line@ == text@ + displayed(path_bytes(*path)),
{
    text.to_owned().concat(display(path).as_str())
}

impl App {
    /// What the form says of its keys.
    pub fn controls_lines(&self) -> (lines: Vec<String>)
        ensures
            lines.deep_view() == seq![
                "Active field: "@ + title_of(self@.form_field),
                "Tab: next completion match for local paths"@,
                "Shift+Tab: previous completion match"@,
                "Up/Down: switch field"@,
                "Empty field + Tab: browse from /"@,
                "Paste: local path, HTTP/HTTPS .torrent URL, or magnet link"@,
                "Enter: add torrent"@,
                "Esc: return to menu"@,
            ],
    {
        let mut lines = owned(
            vec![
                "Tab: next completion match for local paths",
                "Shift+Tab: previous completion match",
                "Up/Down: switch field",
                "Empty field + Tab: browse from /",
                "Paste: local path, HTTP/HTTPS .torrent URL, or magnet link",
                "Enter: add torrent",
                "Esc: return to menu",
            ],
        );
        let ghost rest = lines.deep_view();
        let first = "Active field: ".to_owned().concat(self.form_field.title());
        lines.insert(0, first);
        assert(lines.deep_view() =~= seq![first@] + rest);
        lines
    }

    /// What the form says of the directory for torrents that arrive by themselves.
    pub fn server_prep_lines(&self) -> (lines: Vec<String>)
        ensures
            lines.deep_view() == seq![
                "Incoming .torrent folder: "@ + displayed(
                    path_bytes(self@.config.incoming_torrents_dir),
                ),
                "This directory is reserved for future Telegram bot uploads."@,
            ],
    {
        let mut lines: Vec<String> = Vec::new();
        lines.push(with_path("Incoming .torrent folder: ", &self.config.incoming_torrents_dir));
        lines.push("This directory is reserved for future Telegram bot uploads.".to_owned());
        assert(lines.deep_view() =~= seq![
            "Incoming .torrent folder: "@ + displayed(
                path_bytes(self@.config.incoming_torrents_dir),
            ),
            "This directory is reserved for future Telegram bot uploads."@,
        ]);
        lines
    }

    /// What the screen of the server says.
    pub fn server_lines(&self) -> (lines: Vec<String>)
        ensures
            lines.deep_view() == seq![
                "This screen keeps the integration points for server-side automation."@,
                ""@,
                "Data directory: "@ + displayed(path_bytes(self@.config.data_dir)),
                "Default download directory: "@ + displayed(
                    path_bytes(self@.config.default_download_dir),
                ),
                "Incoming .torrent directory: "@ + displayed(
                    path_bytes(self@.config.incoming_torrents_dir),
                ),
                ""@,
                "Next step: a Telegram bot can save received .torrent files here"@,
                "and call the same TorrentEngine::add_torrent_source API."@,
            ],
    {
        let mut lines: Vec<String> = Vec::new();
        lines.push(
            "This screen keeps the integration points for server-side automation.".to_owned(),
        );
        lines.push("".to_owned());
        lines.push(with_path("Data directory: ", &self.config.data_dir));
        lines.push(
            with_path("Default download directory: ", &self.config.default_download_dir),
        );
        lines.push(
            with_path("Incoming .torrent directory: ", &self.config.incoming_torrents_dir),
        );
        lines.push("".to_owned());
        lines.push("Next step: a Telegram bot can save received .torrent files here".to_owned());
        lines.push("and call the same TorrentEngine::add_torrent_source API.".to_owned());
        assert(lines.deep_view() =~= seq![
            "This screen keeps the integration points for server-side automation."@,
            ""@,
            "Data directory: "@ + displayed(path_bytes(self@.config.data_dir)),
            "Default download directory: "@ + displayed(
                path_bytes(self@.config.default_download_dir),
            ),
            "Incoming .torrent directory: "@ + displayed(
                path_bytes(self@.config.incoming_torrents_dir),
            ),
            ""@,
            "Next step: a Telegram bot can save received .torrent files here"@,
            "and call the same TorrentEngine::add_torrent_source API."@,
        ]);
        lines
    }
}

// ---------------------------------------------------------------------------------------------
// Downloads
// ---------------------------------------------------------------------------------------------

/// A text, or another one where it is missing.
pub open spec fn text_or(text: Option<Seq<char>>, otherwise: Seq<char>) -> Seq<char> {
    match text {
        Some(text) => text,
        None => otherwise,
    }
}

/// A text, or another one where it is missing.
fn text_or_else<'a>(text: &'a Option<String>, otherwise: &'static str) -> (res: &'a str)
    ensures
        res@ == text_or(optional_text(*text), otherwise@),
{
    match text {
        Some(text) => text.as_str(),
        None => otherwise,
    }
}

/// What stands in front of a text, and the text.
fn labelled(label: &str, text: &str) -> (line: String)
    ensures
        line@ == label@ + text@,
{
    label.to_owned().concat(text)
}

/// A download in the list, `percent` telling how far it is: its name, its state and its speed, or
/// one line in the compact view.
pub open spec fn row_lines_of(download: SnapshotModel, percent: Seq<char>, compact: bool) -> Seq<
    Seq<char>,
> {
    if compact {
        seq![
            "#"@ + decimal_text(download.id as nat) + "  "@ + download.name + "  "@ + percent
                + "%"@,
        ]
    } else {
        seq![
            download.name,
            "#"@ + decimal_text(download.id as nat) + "  "@ + download.state + "  "@ + percent
                + "%"@,
            "\u{2193} "@ + text_or(download.download_speed, "n/a"@) + "  peers "@
                + decimal_text(download.live_peers as nat),
        ]
    }
}

/// What stands on the bar that shows how far a download is.
pub open spec fn gauge_label_of(download: SnapshotModel) -> Seq<char> {
    if download.total_bytes == 0 {
        "Waiting for metadata"@
    } else {
        size_text(download.progress_bytes) + " / "@ + size_text(download.total_bytes)
    }
}

/// The figures of a download.
pub open spec fn stats_of(download: SnapshotModel) -> Seq<Seq<char>> {
    seq![
        "State: "@ + download.state,
        "Finished: "@ + (if download.finished {
            "yes"@
        } else {
            "no"@
        }),
        "Downloaded: "@ + size_text(download.progress_bytes),
        "Uploaded: "@ + size_text(download.uploaded_bytes),
        "Download speed: "@ + text_or(download.download_speed, "n/a"@),
        "Upload speed: "@ + text_or(download.upload_speed, "n/a"@),
        "Peers: "@ + decimal_text(download.live_peers as nat),
        "Connecting: "@ + decimal_text(download.connecting_peers as nat),
        "Seen peers: "@ + decimal_text(download.seen_peers as nat),
        "Seeds: unavailable in current librqbit torrent stats"@,
        "Size: "@ + (if download.total_bytes == 0 {
            "unknown"@
        } else {
            size_text(download.total_bytes)
        }),
        "Error: "@ + text_or(download.error, "none"@),
    ]
}

impl TorrentSnapshot {
    /// The download in the list, `percent` telling how far it is.
    pub fn row_lines(&self, percent: &str, compact: bool) -> (lines: Vec<String>)
        ensures
            lines.deep_view() == row_lines_of(self@, percent@, compact),
    {
        let mut lines: Vec<String> = Vec::new();
        if compact {
            lines.push(
                labelled("#", decimal(self.id as u64).as_str()).concat("  ").concat(
                    self.name.as_str(),
                ).concat("  ").concat(percent).concat("%"),
            );
            assert(lines.deep_view() =~= row_lines_of(self@, percent@, compact));
            return lines;
        }
        lines.push(self.name.clone());
        lines.push(
            labelled("#", decimal(self.id as u64).as_str()).concat("  ").concat(
                self.state.as_str(),
            ).concat("  ").concat(percent).concat("%"),
        );
        lines.push(
            labelled("\u{2193} ", text_or_else(&self.download_speed, "n/a")).concat(
                "  peers ",
            ).concat(decimal(self.live_peers as u64).as_str()),
        );
        assert(lines.deep_view() =~= row_lines_of(self@, percent@, compact));
        lines
    }

    /// What stands on the bar that shows how far the download is.
    pub fn gauge_label(&self) -> (label: String)
        ensures
            label@ == gauge_label_of(self@),
    {
        if self.total_bytes == 0 {
            "Waiting for metadata".to_owned()
        } else {
            format_bytes(self.progress_bytes).concat(" / ").concat(
                format_bytes(self.total_bytes).as_str(),
            )
        }
    }

    /// The figures of the download.
    pub fn stats_lines(&self) -> (lines: Vec<String>)
        ensures
            lines.deep_view() == stats_of(self@),
    {
        let finished = if self.finished {
            "yes"
        } else {
            "no"
        };
        let size = if self.total_bytes == 0 {
            "unknown".to_owned()
        } else {
            format_bytes(self.total_bytes)
        };
        let mut lines: Vec<String> = Vec::new();
        lines.push(labelled("State: ", self.state.as_str()));
        lines.push(labelled("Finished: ", finished));
        lines.push(labelled("Downloaded: ", format_bytes(self.progress_bytes).as_str()));
        lines.push(labelled("Uploaded: ", format_bytes(self.uploaded_bytes).as_str()));
        lines.push(labelled("Download speed: ", text_or_else(&self.download_speed, "n/a")));
        lines.push(labelled("Upload speed: ", text_or_else(&self.upload_speed, "n/a")));
        lines.push(labelled("Peers: ", decimal(self.live_peers as u64).as_str()));
        lines.push(labelled("Connecting: ", decimal(self.connecting_peers as u64).as_str()));
        lines.push(labelled("Seen peers: ", decimal(self.seen_peers as u64).as_str()));
        lines.push("Seeds: unavailable in current librqbit torrent stats".to_owned());
        lines.push(labelled("Size: ", size.as_str()));
        lines.push(labelled("Error: ", text_or_else(&self.error, "none")));
        assert(lines.deep_view() =~= stats_of(self@));
        lines
    }

    /// Where the download comes from and where it goes.
    pub fn path_lines(&self) -> (lines: Vec<String>)
        ensures
            lines.deep_view() == seq![
                "Source: "@ + self@.source,
                "Output dir: "@ + displayed(self@.output_dir),
            ],
    {
        let mut lines: Vec<String> = Vec::new();
        lines.push(labelled("Source: ", self.source.as_str()));
        lines.push(with_path("Output dir: ", &self.output_dir));
        assert(lines.deep_view() =~= seq![
            "Source: "@ + self@.source,
            "Output dir: "@ + displayed(self@.output_dir),
        ]);
        lines
    }
}

impl App {
    /// What stands where no download is shown: that there are none, or that the filter keeps none.
    pub fn no_downloads_lines(&self) -> (lines: Vec<String>)
        ensures
            lines.deep_view() == (if self@.downloads.len() == 0 {
                seq![
                    "No torrents have been added yet."@,
                    "Open 'Choose torrent source' and queue a source."@,
                ]
            } else {
                seq!["No torrents match the filter."@, "Press c to clear the filter."@]
            }),
    {
        let mut lines: Vec<String> = Vec::new();
        if self.downloads.len() == 0 {
            lines.push("No torrents have been added yet.".to_owned());
            lines.push("Open 'Choose torrent source' and queue a source.".to_owned());
            assert(lines.deep_view() =~= seq![
                "No torrents have been added yet."@,
                "Open 'Choose torrent source' and queue a source."@,
            ]);
        } else {
            lines.push("No torrents match the filter.".to_owned());
            lines.push("Press c to clear the filter.".to_owned());
            assert(lines.deep_view() =~= seq![
                "No torrents match the filter."@,
                "Press c to clear the filter."@,
            ]);
        }
        lines
    }

    /// The positions of the downloads that are shown, in the order in which they are.
    pub fn shown_downloads(&self) -> (positions: Vec<usize>)
        ensures
            forall|j: int|
                0 <= j < positions@.len() ==> 0 <= #[trigger] positions@[j]
                    < self@.downloads.len(),
            positions@.len() == self@.shown_count(),
            is_shown(
                self@.downloads,
                self@.downloads_view,
                picked(self@.downloads, positions@),
            ),
    {
        shown_positions(&self.downloads, &self.downloads_view)
    }

    /// The download that is shown in detail: the selected one of those that are shown.
    pub fn selected_download(&self) -> (res: Option<&TorrentSnapshot>)
        ensures
            exists|shown: Seq<TorrentSnapshot>| #[trigger]
                is_shown(self@.downloads, self@.downloads_view, shown) && (
                match self@.downloads_selected {
                    Some(selected) if selected < shown.len() => res == Some(
                        &shown[selected as int],
                    ),
                    _ => res is None,
                }),
    {
        let positions = self.shown_downloads();
        let ghost shown = picked(self.downloads@, positions@);
        assert(is_shown(self@.downloads, self@.downloads_view, shown));
        match self.downloads_selected {
            Some(selected) => if selected < positions.len() {
                Some(&self.downloads[positions[selected]])
            } else {
                None
            },
            None => None,
        }
    }
}

} // verus!
