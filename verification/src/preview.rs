//! The completions that are shown while a text is typed.
use crate::app::{collected, App};
use crate::errors::CompletionError;
use crate::form::{field_completes, mode_of};
use crate::path_completion::{
    candidate_models, collect_candidates, completion_query, is_tolerated, lookup_for,
    CandidateModel, CompletionCandidate, CompletionQuery, Listing, UserEnvironment,
};
use crate::text::trimmed;
use vstd::prelude::*;
use vstd::string::*;

verus! {

/// How many completions are shown at most.
pub const MAX_VISIBLE_COMPLETIONS: usize = 8;

/// The first of the completions that are shown: half of those shown stand in front of the
/// selected one, as far as the ends allow.
pub open spec fn window_start(total: nat, selected: Option<usize>) -> nat {
    if total <= MAX_VISIBLE_COMPLETIONS {
        0
    } else {
        let last_start = (total - MAX_VISIBLE_COMPLETIONS) as nat;
        match selected {
            None => 0,
            Some(selected) => if selected < MAX_VISIBLE_COMPLETIONS / 2 {
                0
            } else if selected - MAX_VISIBLE_COMPLETIONS / 2 < last_start {
                (selected - MAX_VISIBLE_COMPLETIONS / 2) as nat
            } else {
                last_start
            },
        }
    }
}

/// One past the last of the completions that are shown.
pub open spec fn window_end(total: nat, selected: Option<usize>) -> nat {
    if total <= MAX_VISIBLE_COMPLETIONS {
        total
    } else {
        window_start(total, selected) + MAX_VISIBLE_COMPLETIONS as nat
    }
}

/// The completions that are shown: the first, and one past the last.
pub fn completion_window(total_items: usize, selected: Option<usize>) -> (window: (usize, usize))
    ensures
        window.0 == window_start(total_items as nat, selected),
        window.1 == window_end(total_items as nat, selected),
        window.0 <= window.1 <= total_items,
{
    if total_items <= MAX_VISIBLE_COMPLETIONS {
        return (0, total_items);
    }
    let selected: usize = match selected {
        Some(selected) => selected,
        None => {
            return (0, MAX_VISIBLE_COMPLETIONS);
        },
    };
    let half: usize = MAX_VISIBLE_COMPLETIONS / 2;
    let start: usize = if selected < half {
        0
    } else {
        selected - half
    };
    if start > total_items - MAX_VISIBLE_COMPLETIONS {
        return (total_items - MAX_VISIBLE_COMPLETIONS, total_items);
    }
    (start, start + MAX_VISIBLE_COMPLETIONS)
}

/// As many completions are shown as there are, up to the most that are, and the selected one is
/// among them.
pub proof fn window_shows_the_selected(total: nat, selected: Option<usize>)
    requires
        selected is Some ==> selected->0 < total,
    ensures
        window_start(total, selected) <= window_end(total, selected) <= total,
        window_end(total, selected) - window_start(total, selected) == (if total
            <= MAX_VISIBLE_COMPLETIONS {
            total
        } else {
            MAX_VISIBLE_COMPLETIONS as nat
        }),
        selected is Some ==> window_start(total, selected) <= selected->0 < window_end(
            total,
            selected,
        ),
{
}

/// The completions that are shown, which of them is selected, and where they stand among all.
#[derive(Clone, Debug)]
pub struct CompletionPreview {
    pub candidates: Vec<CompletionCandidate>,
    pub selected: Option<usize>,
    pub start_index: usize,
    pub total_matches: usize,
}

/// A `CompletionPreview` in contracts.
#[verifier::ext_equal]
pub struct PreviewModel {
    pub candidates: Seq<CandidateModel>,
    pub selected: Option<usize>,
    pub start_index: usize,
    pub total_matches: usize,
}

impl View for CompletionPreview {
    type V = PreviewModel;

    open spec fn view(&self) -> PreviewModel {
        PreviewModel {
            candidates: candidate_models(self.candidates@),
            selected: self.selected,
            start_index: self.start_index,
            total_matches: self.total_matches,
        }
    }
}

impl PreviewModel {
    /// The completions that are shown stand among all of them, and so does the selected one among
    /// those shown.
    pub open spec fn inv(self) -> bool {
        &&& self.start_index + self.candidates.len() <= self.total_matches
        &&& self.selected is Some ==> self.selected->0 < self.candidates.len()
    }
}

/// What is shown of candidates of which one may be selected.
pub open spec fn preview_of(
    candidates: Seq<CandidateModel>,
    selected: Option<usize>,
) -> PreviewModel {
    let start = window_start(candidates.len(), selected);
    let end = window_end(candidates.len(), selected);
    PreviewModel {
        candidates: candidates.subrange(start as int, end as int),
        selected: match selected {
            Some(selected) => Some((selected - start) as usize),
            None => None,
        },
        start_index: start as usize,
        total_matches: candidates.len() as usize,
    }
}

/// What is shown where nothing is completed.
pub open spec fn no_preview() -> PreviewModel {
    PreviewModel { candidates: Seq::empty(), selected: None, start_index: 0, total_matches: 0 }
}

/// What is shown of candidates of which one may be selected.
pub fn preview_candidates(candidates: &Vec<CompletionCandidate>, selected: Option<usize>) -> (
    preview: CompletionPreview)
    requires
        selected is Some ==> selected->0 < candidates@.len(),
    ensures
        preview@ == preview_of(candidate_models(candidates@), selected),
        preview@.inv(),
{
    let (start, end) = completion_window(candidates.len(), selected);
    let mut visible: Vec<CompletionCandidate> = Vec::new();
    let mut i: usize = start;
    while i < end
        invariant
            start <= i <= end <= candidates@.len(),
            visible@ == candidates@.subrange(start as int, i as int),
        decreases end - i,
    {
        visible.push(candidates[i].clone());
        i = i + 1;
        assert(candidates@.subrange(start as int, i as int) =~= candidates@.subrange(
            start as int,
            i - 1,
        ).push(candidates@[i - 1]));
    }
    proof {
        window_shows_the_selected(candidates@.len(), selected);
        assert(candidate_models(visible@) =~= candidate_models(candidates@).subrange(
            start as int,
            end as int,
        ));
    }
    let shown_selected = match selected {
        Some(selected) => Some(selected - start),
        None => None,
    };
    CompletionPreview {
        candidates: visible,
        selected: shown_selected,
        start_index: start,
        total_matches: candidates.len(),
    }
}

/// Where the completions to show come from.
#[derive(Debug)]
pub enum PreviewSource {
    /// They are known.
    Ready(CompletionPreview),
    /// A directory has to be listed, and then `preview_from_listing` to be called.
    Lookup(CompletionQuery),
}

impl App {
    /// Where the completions to show for the active field come from: there are none where nothing
    /// is completed, and those that are stepped through are known.
    pub fn completion_preview(&self, env: &UserEnvironment) -> (res: Result<
        PreviewSource,
        CompletionError,
    >)
        requires
            self@.inv(),
        ensures
            res matches Ok(PreviewSource::Ready(preview)) ==> preview@.inv(),
            ({
                let field = self@.form_field;
                let typed = trimmed(self@.text_in(field));
                if !field_completes(field, typed) {
                    &&& res is Ok
                    &&& res->Ok_0 is Ready
                    &&& res->Ok_0->Ready_0@ == no_preview()
                } else if self@.steps_on() {
                    let completion = self@.completion->0;
                    &&& res is Ok
                    &&& res->Ok_0 is Ready
                    &&& res->Ok_0->Ready_0@ == preview_of(
                        completion.candidates,
                        Some(completion.selected),
                    )
                } else {
                    match lookup_for(typed, *env) {
                        Ok(lookup) => {
                            &&& res is Ok
                            &&& res->Ok_0 is Lookup
                            &&& res->Ok_0->Lookup_0.seed_input@ == typed
                            &&& res->Ok_0->Lookup_0.lookup@ == lookup
                        },
                        Err(error) => res == Err::<PreviewSource, CompletionError>(
                            CompletionError::Path(error),
                        ),
                    }
                }
            }),
    {
        let field = self.form_field;
        let current_input = self.active_value(field).trim();
        if !field.supports_local_completion(current_input) {
            let preview = CompletionPreview {
                candidates: Vec::new(),
                selected: None,
                start_index: 0,
                total_matches: 0,
            };
            assert(preview@ =~= no_preview());
            return Ok(PreviewSource::Ready(preview));
        }
        if let Some(state) = &self.completion_state {
            if state.can_continue(field, current_input) {
                return Ok(
                    PreviewSource::Ready(
                        preview_candidates(&state.candidates, Some(state.selected)),
                    ),
                );
            }
        }
        match completion_query(self.active_value(field), env) {
            Ok(query) => Ok(PreviewSource::Lookup(query)),
            Err(error) => Err(CompletionError::Path(error)),
        }
    }

    /// The completions to show for the active field, from the listing that was asked for.
    pub fn preview_from_listing(&self, query: CompletionQuery, listing: &Listing) -> (res: Result<
        CompletionPreview,
        CompletionError,
    >)
        ensures
            res matches Ok(preview) ==> preview@.inv(),
            match *listing {
                Listing::Failed { failure, detail } if !is_tolerated(failure) => res == Err::<
                    CompletionPreview,
                    CompletionError,
                >(CompletionError::Unreadable { dir: query.lookup.search_dir, detail }),
                _ => {
                    &&& res is Ok
                    &&& exists|candidates: Seq<CandidateModel>| #[trigger]
                        collected(query.lookup@, mode_of(self@.form_field), *listing, candidates)
                            && res->Ok_0@ == preview_of(candidates, None)
                },
            },
    {
        let mode = self.form_field.completion_mode();
        let ghost lookup = query.lookup@;
        match collect_candidates(query, mode, listing) {
            Ok(set) => {
                assert(collected(lookup, mode, *listing, candidate_models(set.candidates@)));
                Ok(preview_candidates(&set.candidates, None))
            },
            Err(error) => Err(error),
        }
    }
}

} // verus!
