//! What holds of the form: how it is completed, and how it queues a torrent.
use crate::app::{collected, App, AppModel, CompletionRequest, SubmitRequest, SubmitResult};
use crate::completion_state::CompletionState;
use crate::config::AppConfig;
use crate::downloads_view::{Dialog, DownloadsView, SortBy};
use crate::engine::TorrentSnapshot;
use crate::errors::{AppError, CompletionError, PathError, QueueError};
use crate::form::{CompletionDirection, FocusArea, FormField, Screen};
use crate::laws::completion::{begins, is_longest_start, lemma_shared_by_all};
use crate::laws::keys::{
    active_text, called, holds_a_link, is_stepping, kept_within, tells_the_place,
};
use crate::laws::list::{count_left, lemma_count_left};
use crate::laws::session::lemma_schemes;
use crate::laws::texts::{is_decimal, lemma_decimal_reads_back, number_read};
use crate::order::stable_sort_is_unique;
use crate::path_completion::{
    candidate_models, candidate_ranks, collect_candidates, offered, resolve_user_path,
    shared_by_all, CandidateModel, CompletionCandidate, CompletionQuery, CompletionSet,
    Listing, Lookup, PathCompletionMode, UserEnvironment,
};
use crate::paths::{displayed, path_bytes};
use crate::preview::{preview_of, CompletionPreview, PreviewSource};
use crate::text::{decimal_text, trimmed, trimming_is_idempotent};
use std::path::PathBuf;
use vstd::prelude::*;
use vstd::string::*;
use vstd::utf8::encode_utf8;

verus! {

// ---------------------------------------------------------------------------------------------
// The start
// ---------------------------------------------------------------------------------------------

/// The interface starts on an empty form for the default directory, with nothing listed, selected
/// or open.
pub proof fn the_interface_starts_on_an_empty_form(config: AppConfig, app: App)
    requires
        call_ensures(App::new, (config,), app),
    ensures
        app@.config == config,
        app@.screen == Screen::AddTorrent,
        app@.focus == FocusArea::Content,
        app@.form_field == FormField::TorrentSource,
        app@.torrent_source.len() == 0,
        app@.download_dir == displayed(path_bytes(config.default_download_dir)),
        app@.downloads.len() == 0,
        app@.downloads_selected is None,
        app@.downloads_view.filter.len() == 0,
        app@.downloads_view.sort == SortBy::Number,
        !app@.downloads_view.reversed && !app@.downloads_view.compact,
        app@.dialog is None,
        !app@.help_open,
        app@.completion is None,
        !app@.should_quit,
        app@.status_line == "Incoming folder reserved for a future Telegram bot: "@ + displayed(
            path_bytes(config.incoming_torrents_dir),
        ),
{
}

/// What can be read of the interface is its state.
pub proof fn the_state_is_read_as_it_is(
    app: &App,
    screen: Screen,
    focus: FocusArea,
    field: FormField,
    selected: Option<usize>,
    line: &str,
    quit: bool,
    open: bool,
)
    requires
        call_ensures(App::current_screen, (app,), screen),
        call_ensures(App::focus, (app,), focus),
        call_ensures(App::form_field, (app,), field),
        call_ensures(App::downloads_selected, (app,), selected),
        call_ensures(App::status_line, (app,), line),
        call_ensures(App::should_quit, (app,), quit),
        call_ensures(App::help_open, (app,), open),
    ensures
        screen == app@.screen,
        focus == app@.focus,
        field == app@.form_field,
        selected == app@.downloads_selected,
        line@ == app@.status_line,
        quit == app@.should_quit,
        open == app@.help_open,
{
}

/// So are its lists, its dialog and its completions.
pub proof fn the_lists_are_read_as_they_are(
    app: &App,
    downloads: &Vec<TorrentSnapshot>,
    view: &DownloadsView,
    dialog: Option<&Dialog>,
    state: Option<&CompletionState>,
)
    requires
        call_ensures(App::downloads, (app,), downloads),
        call_ensures(App::downloads_view, (app,), view),
        call_ensures(App::dialog, (app,), dialog),
        call_ensures(App::completion_state, (app,), state),
    ensures
        downloads@ == app@.downloads,
        view@ == app@.downloads_view,
        dialog is Some <==> app@.dialog is Some,
        dialog is Some ==> dialog->0@ == app@.dialog->0,
        state is Some <==> app@.completion is Some,
        state is Some ==> state->0@ == app@.completion->0,
{
}

// ---------------------------------------------------------------------------------------------
// Completing
// ---------------------------------------------------------------------------------------------

/// The state with another text in a field.
pub open spec fn with_field(app: AppModel, field: FormField, text: Seq<char>) -> AppModel {
    if field == FormField::TorrentSource {
        AppModel { torrent_source: text, ..app }
    } else {
        AppModel { download_dir: text, ..app }
    }
}

/// Whether a candidate for a field was put into it, and is selected of all.
pub open spec fn was_selected(
    before: AppModel,
    field: FormField,
    seed: Seq<char>,
    candidates: Seq<CompletionCandidate>,
    place: int,
    after: AppModel,
) -> bool {
    let completion = after.completion->0;
    &&& after.completion is Some
    &&& completion.field == field
    &&& completion.seed_input == seed
    &&& completion.candidates.len() == candidates.len()
    &&& forall|i: int|
        0 <= i < candidates.len() ==> (#[trigger] completion.candidates[i]) == candidates[i]@
    &&& completion.selected == place
    &&& after == with_field(
        AppModel { completion: after.completion, status_line: after.status_line, ..before },
        field,
        candidates[place].replacement@,
    )
    &&& exists|number: Seq<char>, count: Seq<char>| #[trigger]
        tells_the_place(
            after.status_line,
            field,
            place,
            candidates.len() as int,
            number,
            count,
        )
}

/// Whether the candidates for a field were put to use. Where there are none, that is told. Where
/// all of them begin with more than what is typed, the field holds that, and else the first of
/// them, or the last one backward, which is then selected.
pub open spec fn were_used(
    before: AppModel,
    field: FormField,
    direction: CompletionDirection,
    seed: Seq<char>,
    candidates: Seq<CompletionCandidate>,
    start: Seq<char>,
    after: AppModel,
) -> bool {
    let n = candidates.len();
    let extends = n > 1 && encode_utf8(start).len() > encode_utf8(seed).len();
    let place: int = if direction == CompletionDirection::Forward {
        0
    } else {
        n - 1
    };
    &&& n == 0 ==> after == (AppModel {
        completion: None,
        status_line: "No "@ + called(field) + " matches found"@,
        ..before
    })
    &&& n > 0 && extends ==> after == with_field(
        AppModel {
            completion: None,
            status_line: "Expanded to common prefix: "@ + start,
            ..before
        },
        field,
        start,
    )
    &&& n > 0 && !extends ==> was_selected(before, field, seed, candidates, place, after)
}

proof fn lemma_used(
    before: AppModel,
    field: FormField,
    direction: CompletionDirection,
    seed: Seq<char>,
    candidates: Seq<CompletionCandidate>,
    start: Seq<char>,
)
    requires
        candidates.len() <= usize::MAX,
        candidates.len() > 0 ==> is_longest_start(start, candidates),
    ensures
        were_used(
            before,
            field,
            direction,
            seed,
            candidates,
            start,
            before.after_candidates(field, direction, seed, candidate_models(candidates)),
        ),
{
    let models = candidate_models(candidates);
    let after = before.after_candidates(field, direction, seed, models);
    let n = candidates.len();
    let place: int = if direction == CompletionDirection::Forward {
        0
    } else {
        n - 1
    };
    assert(models.len() == n);
    if n > 0 {
        lemma_shared_by_all(candidates);
        let all = shared_by_all(models);
        assert(begins(start, all));
        assert(begins(all, start));
        assert(start =~= all);
        assert(models[place] == candidates[place]@);
        let number = decimal_text((place + 1) as nat);
        let count = decimal_text(n);
        lemma_decimal_reads_back((place + 1) as nat);
        lemma_decimal_reads_back(n);
        if n > 1 && encode_utf8(start).len() > encode_utf8(seed).len() {
            assert(after =~= with_field(
                AppModel {
                    completion: None,
                    status_line: "Expanded to common prefix: "@ + start,
                    ..before
                },
                field,
                start,
            ));
        } else {
            assert(tells_the_place(after.status_line, field, place, n as int, number, count));
            assert forall|i: int| 0 <= i < n implies (#[trigger] after.completion->0.candidates[i])
                == candidates[i]@ by {
                assert(models[i] == candidates[i]@);
            }
            assert(after =~= with_field(
                AppModel {
                    completion: after.completion,
                    status_line: after.status_line,
                    ..before
                },
                field,
                candidates[place].replacement@,
            ));
            assert(was_selected(before, field, seed, candidates, place, after));
        }
    }
}

/// Candidates are put to use as they come: what they share, or one of them, is put into the field.
pub proof fn candidates_are_put_to_use(
    app: &mut App,
    field: FormField,
    direction: CompletionDirection,
    set: CompletionSet,
    start: Seq<char>,
)
    requires
        call_ensures(App::apply_candidates, (app, field, direction, set), ()),
        set.candidates@.len() > 0 ==> is_longest_start(start, set.candidates@),
    ensures
        were_used(
            old(app)@,
            field,
            direction,
            set.seed_input@,
            set.candidates@,
            start,
            final(app)@,
        ),
{
    assert(set.candidates@.len() == set.candidates.len());
    lemma_used(old(app)@, field, direction, set.seed_input@, set.candidates@, start);
}

/// A listing that was asked for completes the field with the candidates that it gives: torrent
/// files and directories for a source, and directories alone for a directory. A directory that
/// could not be read for no usual reason is told, and nothing changes.
pub proof fn listings_complete_the_field(
    app: &mut App,
    request: CompletionRequest,
    listing: &Listing,
    res: Result<(), AppError>,
    mode: PathCompletionMode,
    set: Result<CompletionSet, CompletionError>,
    start: Seq<char>,
)
    requires
        call_ensures(App::complete_from_listing, (app, request, listing), res),
        request.field == FormField::TorrentSource ==> mode == PathCompletionMode::TorrentFile,
        request.field == FormField::DownloadDir ==> mode == PathCompletionMode::Directory,
        call_ensures(collect_candidates, (request.query, mode, listing), set),
        set is Ok && set->Ok_0.candidates@.len() > 0 ==> is_longest_start(
            start,
            set->Ok_0.candidates@,
        ),
    ensures
        match set {
            Ok(set) => {
                &&& res is Ok
                &&& were_used(
                    old(app)@,
                    request.field,
                    request.direction,
                    request.query.seed_input@,
                    set.candidates@,
                    start,
                    final(app)@,
                )
            },
            Err(error) => {
                &&& res is Err
                &&& res->Err_0 == AppError::Completion(error)
                &&& final(app)@ == old(app)@
            },
        },
{
    if set is Ok {
        let candidates = set->Ok_0.candidates@;
        let lookup = request.query.lookup@;
        let models = candidate_models(candidates);
        let found = choose|found: Seq<CandidateModel>| #[trigger]
            collected(lookup, mode, *listing, found) && final(app)@ == old(
                app,
            )@.after_candidates(
                request.field,
                request.direction,
                request.query.seed_input@,
                found,
            );
        assert(models =~= found) by {
            if let Listing::Entries(entries) = *listing {
                let items = offered(entries@, lookup, mode);
                stable_sort_is_unique(items, candidate_ranks(items), models, found);
            }
        }
        assert(set->Ok_0.candidates@.len() == set->Ok_0.candidates.len());
        lemma_used(
            old(app)@,
            request.field,
            request.direction,
            request.query.seed_input@,
            candidates,
            start,
        );
    }
}

/// While a link is typed nothing is shown as a completion. The completions that are stepped through
/// are shown as they are, and else those are looked for that belong to the text.
pub proof fn completions_are_shown_for_what_is_typed(
    app: &App,
    env: &UserEnvironment,
    res: Result<PreviewSource, CompletionError>,
    typed: &str,
    lookup: Result<Lookup, PathError>,
)
    requires
        call_ensures(App::completion_preview, (app, env), res),
        typed@ == trimmed(active_text(app@)),
        call_ensures(Lookup::from_input, (typed, env), lookup),
    ensures
        holds_a_link(app@) ==> res is Ok && res->Ok_0 is Ready
            && res->Ok_0->Ready_0.candidates@.len() == 0 && res->Ok_0->Ready_0.total_matches == 0
            && res->Ok_0->Ready_0.selected is None,
        !holds_a_link(app@) && is_stepping(app@) ==> {
            let shown = res->Ok_0->Ready_0;
            let completion = app@.completion->0;
            &&& res is Ok
            &&& res->Ok_0 is Ready
            &&& completion.selected < completion.candidates.len() <= usize::MAX ==> {
                &&& shown.total_matches == completion.candidates.len()
                &&& shown.selected is Some
                &&& shown.start_index + shown.selected->0 == completion.selected
                &&& completion.candidates.len() <= 8 ==> shown.start_index == 0
                    && shown.candidates@.len() == completion.candidates.len()
                &&& completion.candidates.len() > 8 ==> shown.candidates@.len() == 8
                &&& completion.candidates.len() > 8 && completion.selected <= 4
                    ==> shown.start_index == 0
                &&& completion.candidates.len() > 8 && 4 <= completion.selected
                    <= completion.candidates.len() - 4 ==> shown.selected->0 == 4
                &&& completion.candidates.len() > 8 && completion.selected
                    >= completion.candidates.len() - 4 ==> shown.start_index + 8
                    == completion.candidates.len()
                &&& forall|i: int|
                    0 <= i < shown.candidates@.len() ==> (#[trigger] shown.candidates@[i])@
                        == completion.candidates[shown.start_index + i]
            }
        },
        !holds_a_link(app@) && !is_stepping(app@) ==> match lookup {
            Ok(lookup) => {
                let query = res->Ok_0->Lookup_0;
                &&& res is Ok
                &&& res->Ok_0 is Lookup
                &&& query.seed_input@ == typed@
                &&& path_bytes(query.lookup.search_dir) == path_bytes(lookup.search_dir)
                &&& query.lookup.raw_dir_prefix@ == lookup.raw_dir_prefix@
                &&& query.lookup.entry_prefix@ == lookup.entry_prefix@
            },
            Err(error) => res is Err && res->Err_0 == CompletionError::Path(error),
        },
{
    trimming_is_idempotent(active_text(app@));
    lemma_schemes(trimmed(active_text(app@)));
    if holds_a_link(app@) {
        assert(candidate_models(res->Ok_0->Ready_0.candidates@).len()
            == res->Ok_0->Ready_0.candidates@.len());
    } else if is_stepping(app@) {
        let shown = res->Ok_0->Ready_0;
        let completion = app@.completion->0;
        if completion.selected < completion.candidates.len() <= usize::MAX {
            let models = candidate_models(shown.candidates@);
            assert(models.len() == shown.candidates@.len());
            assert forall|i: int| 0 <= i < shown.candidates@.len() implies (
            #[trigger] shown.candidates@[i])@ == completion.candidates[shown.start_index + i] by {
                assert(models[i] == shown.candidates@[i]@);
            }
        }
    }
}

/// What is shown of a listing is what is shown of the candidates that it gives, none of them
/// selected.
pub proof fn listings_are_shown_by_their_candidates(
    app: &App,
    query: CompletionQuery,
    listing: &Listing,
    res: Result<CompletionPreview, CompletionError>,
    mode: PathCompletionMode,
    set: Result<CompletionSet, CompletionError>,
)
    requires
        call_ensures(App::preview_from_listing, (app, query, listing), res),
        app@.form_field == FormField::TorrentSource ==> mode == PathCompletionMode::TorrentFile,
        app@.form_field == FormField::DownloadDir ==> mode == PathCompletionMode::Directory,
        call_ensures(collect_candidates, (query, mode, listing), set),
    ensures
        match set {
            Ok(set) => {
                let shown = res->Ok_0;
                let n = set.candidates@.len();
                &&& res is Ok
                &&& shown.total_matches == n
                &&& shown.selected is None
                &&& shown.start_index == 0
                &&& shown.candidates@.len() == (if n <= 8 {
                    n
                } else {
                    8
                })
                &&& forall|i: int|
                    0 <= i < shown.candidates@.len() ==> (#[trigger] shown.candidates@[i])@
                        == set.candidates@[i]@
            },
            Err(error) => res is Err && res->Err_0 == error,
        },
{
    if set is Ok {
        let models = candidate_models(set->Ok_0.candidates@);
        let lookup = query.lookup@;
        assert(set->Ok_0.candidates@.len() == set->Ok_0.candidates.len());
        let found = choose|found: Seq<CandidateModel>| #[trigger]
            collected(lookup, mode, *listing, found) && res->Ok_0@ == preview_of(
                found,
                None,
            );
        assert(models =~= found) by {
            if let Listing::Entries(entries) = *listing {
                let items = offered(entries@, lookup, mode);
                stable_sort_is_unique(items, candidate_ranks(items), models, found);
            }
        }
        let shown = candidate_models(res->Ok_0.candidates@);
        assert(shown.len() == res->Ok_0.candidates@.len());
        assert(models.len() == set->Ok_0.candidates@.len());
        assert forall|i: int| 0 <= i < res->Ok_0.candidates@.len() implies (
        #[trigger] res->Ok_0.candidates@[i])@ == set->Ok_0.candidates@[i]@ by {
            assert(shown[i] == models[i]);
            assert(shown[i] == res->Ok_0.candidates@[i]@);
            assert(models[i] == set->Ok_0.candidates@[i]@);
        }
    }
}

// ---------------------------------------------------------------------------------------------
// Queueing
// ---------------------------------------------------------------------------------------------

/// The form asks for its source to be queued, without the white space around it, for the place that
/// its directory stands for as a typed path.
pub proof fn the_form_asks_for_its_source_and_directory(
    app: &App,
    env: &UserEnvironment,
    res: Result<SubmitRequest, AppError>,
    dir: &str,
    place: Result<PathBuf, PathError>,
)
    requires
        call_ensures(App::submit_torrent, (app, env), res),
        dir@ == app@.download_dir,
        call_ensures(resolve_user_path, (dir, env), place),
    ensures
        match place {
            Ok(place) => {
                &&& res is Ok
                &&& res->Ok_0.source_input@ == trimmed(app@.torrent_source)
                &&& path_bytes(res->Ok_0.download_dir) == path_bytes(place)
            },
            Err(error) => res is Err && res->Err_0 == AppError::OutputDirectory(error),
        },
{
}

/// Whether a status line tells that a torrent was queued, by its number, its source and where it
/// goes.
pub open spec fn tells_it_is_queued(
    line: Seq<char>,
    id: int,
    source: Seq<char>,
    dir: Seq<char>,
    number: Seq<char>,
) -> bool {
    &&& line == "Torrent #"@ + number + " queued: "@ + source + " -> "@ + dir
    &&& is_decimal(number)
    &&& number_read(number) == id
}

/// A torrent that was queued empties the source and brings up the list of downloads, which holds
/// the torrents of the session; the status line tells its number, source and directory.
pub proof fn queued_torrents_come_up_in_the_list(
    app: &mut App,
    request: &SubmitRequest,
    id: usize,
    downloads: Vec<TorrentSnapshot>,
)
    requires
        call_ensures(
            App::finish_submit,
            (app, request, SubmitResult::Queued { id, downloads }),
            (),
        ),
    ensures
        final(app)@ == (AppModel {
            status_line: final(app)@.status_line,
            torrent_source: Seq::empty(),
            completion: None,
            screen: Screen::Downloads,
            focus: FocusArea::Content,
            downloads: downloads@,
            downloads_selected: kept_within(
                old(app)@.downloads_selected,
                count_left(downloads@, old(app)@.downloads_view.filter),
            ),
            ..old(app)@
        }),
        exists|number: Seq<char>| #[trigger]
            tells_it_is_queued(
                final(app)@.status_line,
                id as int,
                request.source_input@,
                displayed(path_bytes(request.download_dir)),
                number,
            ),
{
    lemma_count_left(downloads@, old(app)@.downloads_view.filter);
    lemma_decimal_reads_back(id as nat);
    assert(tells_it_is_queued(
        final(app)@.status_line,
        id as int,
        request.source_input@,
        displayed(path_bytes(request.download_dir)),
        decimal_text(id as nat),
    ));
}

/// A torrent that was not queued leaves the form as it is, and the status line tells why in one
/// line.
pub proof fn torrents_that_are_not_queued_are_told(
    app: &mut App,
    request: &SubmitRequest,
    error: QueueError,
    message: String,
)
    requires
        call_ensures(App::finish_submit, (app, request, SubmitResult::Failed(error)), ()),
        call_ensures(QueueError::message, (&error,), message),
    ensures
        final(app)@ == (AppModel {
            status_line: "Failed to queue torrent: "@ + message@,
            ..old(app)@
        }),
{
}

} // verus!
