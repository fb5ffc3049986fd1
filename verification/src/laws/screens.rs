//! What holds of what the screens of the terminal interface show.
use crate::app::App;
use crate::downloads_view::{Dialog, SortBy};
use crate::engine::TorrentSnapshot;
use crate::errors::CompletionError;
use crate::form::{FocusArea, FormField, Screen};
use crate::laws::keys::{active_text, holds_a_link};
use crate::laws::session::{begins_as_a_magnet_link, begins_as_a_url, lemma_schemes};
use crate::laws::texts::{is_decimal, lemma_decimal_reads_back, number_read};
use crate::path_completion::{candidate_models, CompletionCandidate};
use crate::paths::{displayed, path_bytes};
use crate::preview::CompletionPreview;
use crate::size::format_bytes;
use crate::text::{decimal, decimal_text, trimmed};
use crate::view::{
    border, candidate_row, help_lines, row_models, row_of, rows_of, CandidateRow, InputView,
    PanelView, Tone,
};
use vstd::prelude::*;
use vstd::string::*;

verus! {

// ---------------------------------------------------------------------------------------------
// Fields and screens
// ---------------------------------------------------------------------------------------------

/// Paths are completed in the field of a directory whatever it holds, and in that of a source
/// unless it holds a link.
pub proof fn fields_complete_all_but_links(field: FormField, input: &str, res: bool)
    requires
        call_ensures(FormField::supports_local_completion, (field, input), res),
    ensures
        res <==> field == FormField::DownloadDir || (!begins_as_a_magnet_link(trimmed(input@))
            && !begins_as_a_url(trimmed(input@))),
{
    lemma_schemes(trimmed(input@));
}

/// The fields are called, shown and completed each in its own way, and either is next to the other.
pub proof fn fields_have_their_names(
    field: FormField,
    title: &'static str,
    short: &'static str,
    subject: &'static str,
    next: FormField,
    previous: FormField,
)
    requires
        call_ensures(FormField::title, (field,), title),
        call_ensures(FormField::short_title, (field,), short),
        call_ensures(FormField::completion_subject, (field,), subject),
        call_ensures(FormField::next, (field,), next),
        call_ensures(FormField::previous, (field,), previous),
    ensures
        field == FormField::TorrentSource ==> title@ == "Torrent source"@ && short@ == "Source"@
            && subject@ == "source path"@ && next == FormField::DownloadDir,
        field == FormField::DownloadDir ==> title@ == "Output directory"@ && short@
            == "Directory"@ && subject@ == "directory path"@ && next == FormField::TorrentSource,
        previous == next,
{
}

/// Every place of the menu has its screen, the first one standing for places that there are not.
pub proof fn places_have_their_screens(index: usize, screen: Screen, place: usize)
    requires
        call_ensures(Screen::from_index, (index,), screen),
        call_ensures(Screen::index, (screen,), place),
    ensures
        index < 3 ==> place == index,
        index >= 3 ==> place == 0,
        screen == Screen::AddTorrent <==> place == 0,
        screen == Screen::Downloads <==> place == 1,
        screen == Screen::Server <==> place == 2,
{
}

/// A border is yellow just where the keys go.
pub proof fn borders_show_where_keys_go(active: bool, tone: Tone)
    requires
        call_ensures(border, (active,), tone),
    ensures
        tone == Tone::Yellow <==> active,
        tone == Tone::DarkGray <==> !active,
{
}

/// The header tells where the focus is, and nothing else.
pub proof fn the_header_tells_the_focus(app: &App, text: String)
    requires
        call_ensures(App::header_focus, (app,), text),
    ensures
        app@.focus == FocusArea::Menu ==> text@ == "focus: "@ + "menu"@,
        app@.focus == FocusArea::Content ==> text@ == "focus: "@ + "content"@,
{
}

/// The footer tells the status and the keys of the screen, which are the same for the screen in
/// every state.
pub proof fn the_footer_tells_the_status_and_the_keys(
    app: &App,
    other: &App,
    lines: Vec<String>,
    others: Vec<String>,
)
    requires
        call_ensures(App::footer_lines, (app,), lines),
        call_ensures(App::footer_lines, (other,), others),
    ensures
        lines@.len() == 2,
        lines@[0]@ == app@.status_line,
        app@.screen == other@.screen ==> lines@[1]@ == others@[1]@,
        app@.screen == Screen::AddTorrent ==> lines@[1]@
            == "Left/Right focus | Tab local completion | Up/Down switch field | Enter add torrent | Esc menu | Ctrl+C/F10 exit"@,
        app@.screen == Screen::Downloads ==> lines@[1]@
            == "Left/Right focus | Up/Down select torrent | / filter | s sort | r reverse | m compact | c clear filter | x reset view | q quit | Esc menu | F1 help | Ctrl+C/F10 exit"@,
        app@.screen == Screen::Server ==> lines@[1]@
            == "Left/Right focus | Esc menu | Ctrl+C/F10 exit"@,
{
    assert(lines.deep_view().len() == lines@.len());
    assert(lines.deep_view()[0] == lines@[0]@);
    assert(lines.deep_view()[1] == lines@[1]@);
    assert(others.deep_view().len() == others@.len());
    assert(others.deep_view()[1] == others@[1]@);
}

// ---------------------------------------------------------------------------------------------
// The form
// ---------------------------------------------------------------------------------------------

/// A field shows its text, or while it is empty its placeholder, marked as such; its border tells
/// whether keys go there.
pub proof fn fields_show_their_text(
    app: &App,
    field: FormField,
    view: InputView,
    text: &str,
    placeholder: &'static str,
    title: &'static str,
)
    requires
        call_ensures(App::input_view, (app, field), view),
        call_ensures(App::active_value, (app, field), text),
        call_ensures(FormField::placeholder, (field,), placeholder),
        call_ensures(FormField::title, (field,), title),
    ensures
        view.title@ == title@,
        view.is_placeholder <==> text@.len() == 0,
        text@.len() > 0 ==> view.text@ == text@,
        text@.len() == 0 ==> view.text@ == placeholder@,
        field == FormField::TorrentSource ==> placeholder@
            == "Example: ./movie.torrent, https://site/file.torrent, or magnet:?..."@,
        field == FormField::DownloadDir ==> placeholder@ == "Example: ~/downloads"@,
        view.border == Tone::Yellow <==> app@.focus == FocusArea::Content && app@.form_field
            == field,
        view.border == Tone::Yellow || view.border == Tone::DarkGray,
{
}

/// Whether lines are those of a sequence.
pub open spec fn are_lines(lines: Vec<String>, wanted: Seq<Seq<char>>) -> bool {
    lines@.len() == wanted.len() && forall|i: int|
        0 <= i < wanted.len() ==> (#[trigger] lines@[i])@ == wanted[i]
}

proof fn lemma_lines(lines: Vec<String>, wanted: Seq<Seq<char>>)
    requires
        lines.deep_view() == wanted,
    ensures
        are_lines(lines, wanted),
{
    assert(lines.deep_view().len() == lines@.len());
    assert forall|i: int| 0 <= i < wanted.len() implies (#[trigger] lines@[i])@ == wanted[i] by {
        assert(lines.deep_view()[i] == lines@[i]@);
    }
}

/// Where nothing is completed, advice on the field stands in its place.
pub proof fn advice_follows_what_is_typed(app: &App, lines: Vec<String>)
    requires
        call_ensures(App::completion_empty_text, (app,), lines),
    ensures
        holds_a_link(app@) ==> are_lines(
            lines,
            seq![
                "This field currently contains a URL or magnet link."@,
                "Press Enter to start downloading it immediately."@,
                "Local path completion is only available for filesystem paths."@,
            ],
        ),
        !holds_a_link(app@) && app@.form_field == FormField::TorrentSource ==> are_lines(
            lines,
            seq![
                "This field accepts three source types:"@,
                "1. Local .torrent files"@,
                "2. HTTP/HTTPS URLs to .torrent files"@,
                "3. magnet: links"@,
                ""@,
                "For local files, press Tab to autocomplete from /."@,
            ],
        ),
        app@.form_field == FormField::DownloadDir ==> are_lines(
            lines,
            seq![
                "Type a path and press Tab to autocomplete."@,
                "An empty field starts browsing from /."@,
                "Only directories are listed here."@,
            ],
        ),
{
    lemma_schemes(trimmed(active_text(app@)));
    lemma_lines(lines, lines.deep_view());
}

/// A candidate is shown by its text, with what kind it is, in green for a directory and in blue
/// for a torrent file.
pub proof fn candidates_are_shown_with_their_kind(candidate: &CompletionCandidate, row: CandidateRow)
    requires
        call_ensures(candidate_row, (candidate,), row),
    ensures
        is_row_of(row, *candidate),
{
    lemma_row(row, *candidate);
}

/// Whether a row shows a candidate.
pub open spec fn is_row_of(row: CandidateRow, candidate: CompletionCandidate) -> bool {
    &&& row.replacement@ == candidate.replacement@
    &&& candidate.is_dir ==> row.label@ == "[dir]"@ && row.tone == Tone::Green
    &&& !candidate.is_dir ==> row.label@ == "[torrent]"@ && row.tone == Tone::Blue
}

proof fn lemma_row(row: CandidateRow, candidate: CompletionCandidate)
    requires
        row@ == row_of(candidate@),
    ensures
        is_row_of(row, candidate),
{
    reveal_strlit("[");
    reveal_strlit("]");
    reveal_strlit("dir");
    reveal_strlit("torrent");
    reveal_strlit("[dir]");
    reveal_strlit("[torrent]");
    assert("["@ + "dir"@ + "]"@ =~= "[dir]"@);
    assert("["@ + "torrent"@ + "]"@ =~= "[torrent]"@);
}

/// Whether a title tells how many completions there are, and which of them are shown where not all
/// are.
pub open spec fn tells_the_completions(
    title: Seq<char>,
    short: Seq<char>,
    preview: CompletionPreview,
    first: Seq<char>,
    last: Seq<char>,
    total: Seq<char>,
) -> bool {
    let shown = preview.candidates@.len();
    &&& is_decimal(first) && number_read(first) == preview.start_index + 1
    &&& is_decimal(last) && number_read(last) == preview.start_index + shown
    &&& is_decimal(total) && number_read(total) == preview.total_matches
    &&& preview.total_matches > shown ==> title == short + " Completion (showing "@ + first + "-"@
        + last + " of "@ + total + ")"@
    &&& preview.total_matches <= shown ==> title == short + " Completion ("@ + total + ")"@
}

/// The panel shows every completion of a preview in its order, with the selected one marked and a
/// title that tells how many there are; where there are none it shows advice, and where they could
/// not be found out, why.
pub proof fn the_panel_shows_the_preview(
    app: &App,
    preview: &Result<CompletionPreview, CompletionError>,
    panel: PanelView,
    short: &'static str,
    advice: Vec<String>,
)
    requires
        call_ensures(App::completion_panel, (app, preview), panel),
        call_ensures(FormField::short_title, (app@.form_field,), short),
        call_ensures(App::completion_empty_text, (app,), advice),
    ensures
        match *preview {
            Err(error) => {
                &&& panel is Unavailable
                &&& panel->Unavailable_title@ == "Path Completion"@
                &&& panel->Unavailable_lines@.len() == 2
                &&& panel->Unavailable_lines@[0]@ == "Autocomplete is currently unavailable."@
                &&& forall|message: String| #[trigger]
                    call_ensures(CompletionError::message, (&error,), message)
                        ==> panel->Unavailable_lines@[1]@ == message@
            },
            Ok(preview) => if preview.candidates@.len() == 0 {
                &&& panel is Empty
                &&& panel->Empty_title@ == short@ + " Completion"@
                &&& panel->Empty_lines.deep_view() == advice.deep_view()
            } else {
                &&& panel is Listed
                &&& panel->selected == preview.selected
                &&& panel->rows@.len() == preview.candidates@.len()
                &&& forall|i: int|
                    0 <= i < panel->rows@.len() ==> is_row_of(
                        #[trigger] panel->rows@[i],
                        preview.candidates@[i],
                    )
                &&& exists|first: Seq<char>, last: Seq<char>, total: Seq<char>| #[trigger]
                    tells_the_completions(
                        panel->Listed_title@,
                        short@,
                        preview,
                        first,
                        last,
                        total,
                    )
            },
        },
{
    match *preview {
        Err(error) => {
            let lines = panel->Unavailable_lines;
            assert(lines.deep_view().len() == lines@.len());
            assert(lines.deep_view()[0] == lines@[0]@);
            assert(lines.deep_view()[1] == lines@[1]@);
        },
        Ok(preview) => {
            let models = candidate_models(preview.candidates@);
            assert(models.len() == preview.candidates@.len());
            if preview.candidates@.len() > 0 {
                let rows = row_models(panel->rows@);
                assert(rows == rows_of(models));
                assert(rows.len() == panel->rows@.len());
                assert forall|i: int| 0 <= i < panel->rows@.len() implies is_row_of(
                    #[trigger] panel->rows@[i],
                    preview.candidates@[i],
                ) by {
                    assert(rows[i] == panel->rows@[i]@);
                    assert(models[i] == preview.candidates@[i]@);
                    lemma_row(panel->rows@[i], preview.candidates@[i]);
                }
                let first = (preview.start_index + 1) as nat;
                let last = (preview.start_index + preview.candidates@.len()) as nat;
                let total = preview.total_matches as nat;
                lemma_decimal_reads_back(first);
                lemma_decimal_reads_back(last);
                lemma_decimal_reads_back(total);
                assert(tells_the_completions(
                    panel->Listed_title@,
                    short@,
                    preview,
                    decimal_text(first),
                    decimal_text(last),
                    decimal_text(total),
                ));
            }
        },
    }
}

/// The notes on the form name the active field, and else are the same in every state.
pub proof fn the_notes_name_the_active_field(app: &App, lines: Vec<String>, title: &'static str)
    requires
        call_ensures(App::controls_lines, (app,), lines),
        call_ensures(FormField::title, (app@.form_field,), title),
    ensures
        are_lines(
            lines,
            seq![
                "Active field: "@ + title@,
                "Tab: next completion match for local paths"@,
                "Shift+Tab: previous completion match"@,
                "Up/Down: switch field"@,
                "Empty field + Tab: browse from /"@,
                "Paste: local path, HTTP/HTTPS .torrent URL, or magnet link"@,
                "Enter: add torrent"@,
                "Esc: return to menu"@,
            ],
        ),
{
    lemma_lines(lines, lines.deep_view());
}

/// The notes on the server name the directories of the configuration.
pub proof fn the_server_names_its_directories(app: &App, notes: Vec<String>, lines: Vec<String>)
    requires
        call_ensures(App::server_prep_lines, (app,), notes),
        call_ensures(App::server_lines, (app,), lines),
    ensures
        ({
            let data = displayed(path_bytes(app@.config.data_dir));
            let downloads = displayed(path_bytes(app@.config.default_download_dir));
            let incoming = displayed(path_bytes(app@.config.incoming_torrents_dir));
            &&& notes@.len() == 2
            &&& notes@[0]@ == "Incoming .torrent folder: "@ + incoming
            &&& notes@[1]@ == "This directory is reserved for future Telegram bot uploads."@
            &&& lines@.len() == 8
            &&& lines@[0]@
                == "This screen keeps the integration points for server-side automation."@
            &&& lines@[1]@ == ""@
            &&& lines@[5]@ == ""@
            &&& lines@[6]@ == "Next step: a Telegram bot can save received .torrent files here"@
            &&& lines@[7]@ == "and call the same TorrentEngine::add_torrent_source API."@
            &&& lines@[2]@ == "Data directory: "@ + data
            &&& lines@[3]@ == "Default download directory: "@ + downloads
            &&& lines@[4]@ == "Incoming .torrent directory: "@ + incoming
        }),
{
    lemma_lines(notes, notes.deep_view());
    lemma_lines(lines, lines.deep_view());
    assert(notes.deep_view()[0] == notes@[0]@);
    assert(notes.deep_view()[1] == notes@[1]@);
    let told = lines.deep_view();
    assert(told[0] == lines@[0]@ && told[1] == lines@[1]@ && told[2] == lines@[2]@);
    assert(told[3] == lines@[3]@ && told[4] == lines@[4]@ && told[5] == lines@[5]@);
    assert(told[6] == lines@[6]@ && told[7] == lines@[7]@);
}

// ---------------------------------------------------------------------------------------------
// Downloads
// ---------------------------------------------------------------------------------------------

/// A text that may be missing, or another one in its place.
pub open spec fn either_text(text: Option<String>, otherwise: Seq<char>) -> Seq<char> {
    if text is Some {
        text->0@
    } else {
        otherwise
    }
}

/// A row of the list tells of a download its name, its number, its state, how far it is, its
/// speed and its peers, and in the compact view its number, its name and how far it is.
pub proof fn rows_tell_of_their_download(
    download: &TorrentSnapshot,
    percent: &str,
    compact: bool,
    lines: Vec<String>,
    number: String,
    peers: String,
)
    requires
        call_ensures(TorrentSnapshot::row_lines, (download, percent, compact), lines),
        call_ensures(decimal, (download.id as u64,), number),
        call_ensures(decimal, (download.live_peers as u64,), peers),
    ensures
        compact ==> are_lines(
            lines,
            seq!["#"@ + number@ + "  "@ + download.name@ + "  "@ + percent@ + "%"@],
        ),
        !compact ==> are_lines(
            lines,
            seq![
                download.name@,
                "#"@ + number@ + "  "@ + download.state@ + "  "@ + percent@ + "%"@,
                "\u{2193} "@ + either_text(download.download_speed, "n/a"@) + "  peers "@ + peers@,
            ],
        ),
{
    lemma_lines(lines, lines.deep_view());
}

/// The bar of a download tells how much is there of how much, once its size is known.
pub proof fn bars_tell_how_much_is_there(
    download: &TorrentSnapshot,
    label: String,
    part: String,
    whole: String,
)
    requires
        call_ensures(TorrentSnapshot::gauge_label, (download,), label),
        call_ensures(format_bytes, (download.progress_bytes,), part),
        call_ensures(format_bytes, (download.total_bytes,), whole),
    ensures
        download.total_bytes == 0 ==> label@ == "Waiting for metadata"@,
        download.total_bytes > 0 ==> label@ == part@ + " / "@ + whole@,
{
}

/// The figures of a download are its own.
pub proof fn figures_tell_of_their_download(
    download: &TorrentSnapshot,
    lines: Vec<String>,
    part: String,
    whole: String,
    uploaded: String,
)
    requires
        call_ensures(TorrentSnapshot::stats_lines, (download,), lines),
        call_ensures(format_bytes, (download.progress_bytes,), part),
        call_ensures(format_bytes, (download.total_bytes,), whole),
        call_ensures(format_bytes, (download.uploaded_bytes,), uploaded),
    ensures
        lines@.len() == 12,
        lines@[0]@ == "State: "@ + download.state@,
        download.finished ==> lines@[1]@ == "Finished: "@ + "yes"@,
        !download.finished ==> lines@[1]@ == "Finished: "@ + "no"@,
        lines@[2]@ == "Downloaded: "@ + part@,
        lines@[3]@ == "Uploaded: "@ + uploaded@,
        lines@[4]@ == "Download speed: "@ + either_text(download.download_speed, "n/a"@),
        lines@[5]@ == "Upload speed: "@ + either_text(download.upload_speed, "n/a"@),
        forall|number: String| #[trigger]
            call_ensures(decimal, (download.live_peers as u64,), number) ==> lines@[6]@
                == "Peers: "@ + number@,
        forall|number: String| #[trigger]
            call_ensures(decimal, (download.connecting_peers as u64,), number) ==> lines@[7]@
                == "Connecting: "@ + number@,
        forall|number: String| #[trigger]
            call_ensures(decimal, (download.seen_peers as u64,), number) ==> lines@[8]@
                == "Seen peers: "@ + number@,
        lines@[9]@ == "Seeds: unavailable in current librqbit torrent stats"@,
        download.total_bytes == 0 ==> lines@[10]@ == "Size: "@ + "unknown"@,
        download.total_bytes > 0 ==> lines@[10]@ == "Size: "@ + whole@,
        lines@[11]@ == "Error: "@ + either_text(download.error, "none"@),
{
    let told = lines.deep_view();
    assert(told.len() == lines@.len());
    assert(told[0] == lines@[0]@ && told[1] == lines@[1]@ && told[2] == lines@[2]@);
    assert(told[3] == lines@[3]@ && told[4] == lines@[4]@ && told[5] == lines@[5]@);
    assert(told[6] == lines@[6]@ && told[7] == lines@[7]@ && told[8] == lines@[8]@);
    assert(told[9] == lines@[9]@ && told[10] == lines@[10]@ && told[11] == lines@[11]@);
}

/// A download tells where it comes from and where it goes.
pub proof fn downloads_tell_where_they_come_from(download: &TorrentSnapshot, lines: Vec<String>)
    requires
        call_ensures(TorrentSnapshot::path_lines, (download,), lines),
    ensures
        are_lines(
            lines,
            seq![
                "Source: "@ + download.source@,
                "Output dir: "@ + displayed(path_bytes(download.output_dir)),
            ],
        ),
{
    lemma_lines(lines, lines.deep_view());
}

/// An empty list tells whether there are no torrents or none that match.
pub proof fn an_empty_list_tells_why(app: &App, lines: Vec<String>)
    requires
        call_ensures(App::no_downloads_lines, (app,), lines),
    ensures
        app@.downloads.len() == 0 ==> are_lines(
            lines,
            seq![
                "No torrents have been added yet."@,
                "Open 'Choose torrent source' and queue a source."@,
            ],
        ),
        app@.downloads.len() > 0 ==> are_lines(
            lines,
            seq!["No torrents match the filter."@, "Press c to clear the filter."@],
        ),
{
    lemma_lines(lines, lines.deep_view());
}

// ---------------------------------------------------------------------------------------------
// Dialogs
// ---------------------------------------------------------------------------------------------

/// A dialog tells what it is for and how it stands: the filter that is typed, or the sort keys
/// with the chosen one marked, or what it asks.
pub proof fn dialogs_tell_how_they_stand(dialog: &Dialog, title: &'static str, lines: Vec<String>)
    requires
        call_ensures(Dialog::title, (dialog,), title),
        call_ensures(Dialog::lines, (dialog,), lines),
    ensures
        *dialog is Filter ==> title@ == "Filter downloads"@ && lines@.len() == 2 && lines@[0]@
            == "Name holds: "@ + dialog->Filter_0@,
        *dialog is Sort ==> title@ == "Sort downloads"@ && lines@.len() == 5,
        *dialog is Sort ==> lines@[0]@ == (if dialog->Sort_0 == SortBy::Number {
            "> "@
        } else {
            "  "@
        }) + "Number"@,
        *dialog is Sort ==> lines@[1]@ == (if dialog->Sort_0 == SortBy::Name {
            "> "@
        } else {
            "  "@
        }) + "Name"@,
        *dialog is Sort ==> lines@[2]@ == (if dialog->Sort_0 == SortBy::Size {
            "> "@
        } else {
            "  "@
        }) + "Size"@,
        *dialog is Sort ==> lines@[3]@ == (if dialog->Sort_0 == SortBy::Downloaded {
            "> "@
        } else {
            "  "@
        }) + "Downloaded"@,
        *dialog is Filter ==> lines@[1]@ == "Enter apply | Delete empty | Esc cancel"@,
        *dialog is Sort ==> lines@[4]@ == "Up/Down choose | Enter apply | Esc cancel"@,
        *dialog is ConfirmClear ==> title@ == "Clear filter"@ && lines@.len() == 2 && lines@[0]@
            == "Clear the filter and show all downloads?"@ && lines@[1]@
            == "Enter/y yes | Esc/n no"@,
        *dialog is ConfirmQuit ==> title@ == "Quit"@ && lines@.len() == 2 && lines@[0]@
            == "Quit the program?"@ && lines@[1]@ == "Enter/y yes | Esc/n no"@,
{
    let told = lines.deep_view();
    assert(told.len() == lines@.len());
    assert(told.len() > 0 ==> told[0] == lines@[0]@);
    assert(told.len() > 1 ==> told[1] == lines@[1]@);
    assert(told.len() > 2 ==> told[2] == lines@[2]@);
    assert(told.len() > 3 ==> told[3] == lines@[3]@);
    assert(told.len() > 4 ==> told[4] == lines@[4]@);
}

/// The help tells every key of the program.
pub proof fn the_help_tells_every_key(lines: Vec<String>)
    requires
        call_ensures(help_lines, (), lines),
    ensures
        are_lines(
            lines,
            seq![
                "Main controls"@,
                "F1: open help"@,
                "F10 or Ctrl+C: force exit"@,
                "Left or Esc: go to the menu"@,
                "Right: go to the content"@,
                "Tab / Shift+Tab: cycle local path completion"@,
                "Enter: queue torrent from the current source field"@,
                "Up / Down: switch active input field or move in lists"@,
                ""@,
                "Downloads screen"@,
                "/: open filter dialog"@,
                "s: open sort dialog"@,
                "r: reverse sort order"@,
                "m: toggle compact/expanded view"@,
                "c: clear filter with confirmation"@,
                "x: reset downloads view"@,
                "q: quit with confirmation"@,
                ""@,
                "Esc or Enter: close help"@,
            ],
        ),
{
    lemma_lines(lines, lines.deep_view());
}

/// A candidate is called a directory or a torrent by its kind.
pub proof fn candidates_are_called_by_their_kind(
    candidate: &CompletionCandidate,
    label: &'static str,
)
    requires
        call_ensures(CompletionCandidate::kind_label, (candidate,), label),
    ensures
        candidate.is_dir ==> label@ == "dir"@,
        !candidate.is_dir ==> label@ == "torrent"@,
{
}

} // verus!
