//! Stepping through the completions of a field.
use crate::form::{CompletionDirection, FormField};
use crate::path_completion::{candidate_models, CandidateModel, CompletionCandidate};
use crate::text::same_text;
use vstd::arithmetic::div_mod::{lemma_fundamental_div_mod, lemma_fundamental_div_mod_converse};
use vstd::prelude::*;
use vstd::string::*;

verus! {

/// The completions that a field is being stepped through.
#[derive(Clone, Debug)]
pub struct CompletionState {
    pub field: FormField,
    pub seed_input: String,
    pub candidates: Vec<CompletionCandidate>,
    pub selected: usize,
}

/// A `CompletionState` in contracts.
#[verifier::ext_equal]
pub struct CompletionModel {
    pub field: FormField,
    pub seed_input: Seq<char>,
    pub candidates: Seq<CandidateModel>,
    pub selected: usize,
}

impl View for CompletionState {
    type V = CompletionModel;

    open spec fn view(&self) -> CompletionModel {
        CompletionModel {
            field: self.field,
            seed_input: self.seed_input@,
            candidates: candidate_models(self.candidates@),
            selected: self.selected,
        }
    }
}

impl CompletionModel {
    /// One of the candidates is selected.
    pub open spec fn inv(self) -> bool {
        self.selected < self.candidates.len()
    }

    /// The text of the selected candidate.
    pub open spec fn replacement(self) -> Seq<char> {
        self.candidates[self.selected as int].replacement
    }

    /// Whether the next step belongs to these completions: the field is theirs, and it holds what
    /// was typed into it or what the last step put there.
    pub open spec fn continues(self, field: FormField, input: Seq<char>) -> bool {
        &&& self.field == field
        &&& self.candidates.len() > 0
        &&& input == self.seed_input || input == self.replacement()
    }

    /// The completions with the next candidate selected, the first one behind the last.
    pub open spec fn stepped(self, direction: CompletionDirection) -> CompletionModel {
        CompletionModel {
            selected: next_selected(self.selected, self.candidates.len(), direction),
            ..self
        }
    }
}

/// The place of the next of `total` candidates, around the end.
pub open spec fn next_selected(
    selected: usize,
    total: nat,
    direction: CompletionDirection,
) -> usize {
    match direction {
        CompletionDirection::Forward => if selected + 1 == total {
            0
        } else {
            (selected + 1) as usize
        },
        CompletionDirection::Backward => if selected == 0 {
            (total - 1) as usize
        } else {
            (selected - 1) as usize
        },
    }
}

impl CompletionState {
    /// The text of the selected candidate.
    pub fn current_replacement(&self) -> (text: &str)
        requires
            self@.inv(),
        ensures
            text@ == self@.replacement(),
    {
        self.candidates[self.selected].replacement.as_str()
    }

    /// Selects the next candidate, the first one behind the last.
    pub fn step(&mut self, direction: CompletionDirection)
        requires
            old(self)@.inv(),
        ensures
            final(self)@ == old(self)@.stepped(direction),
            final(self)@.inv(),
    {
        let total: usize = self.candidates.len();
        let selected: usize = self.selected;
        assert((selected + 1) % (total as int) == (if selected + 1 == total {
            0
        } else {
            selected + 1
        })) by (nonlinear_arith)
            requires
                selected < total,
        ;
        self.selected = match direction {
            CompletionDirection::Forward => (self.selected + 1) % total,
            CompletionDirection::Backward => if self.selected == 0 {
                total - 1
            } else {
                self.selected - 1
            },
        };
    }

    /// Whether the next step in a field belongs to these completions.
    pub fn can_continue(&self, field: FormField, current_input: &str) -> (res: bool)
        requires
            self.candidates@.len() > 0 ==> self@.inv(),
        ensures
            res == self@.continues(field, current_input@),
    {
        self.field == field && self.candidates.len() > 0 && (same_text(
            current_input,
            self.seed_input.as_str(),
        ) || same_text(current_input, self.current_replacement()))
    }
}

/// Stepping forward and back again, or back and forward, selects the same candidate as before.
pub proof fn steps_undo_each_other(completion: CompletionModel)
    requires
        completion.inv(),
        completion.candidates.len() <= usize::MAX,
    ensures
        completion.stepped(CompletionDirection::Forward).stepped(CompletionDirection::Backward)
            == completion,
        completion.stepped(CompletionDirection::Backward).stepped(CompletionDirection::Forward)
            == completion,
{
}

/// The place that is selected after a number of steps in a direction.
pub open spec fn selected_after(
    selected: usize,
    total: nat,
    steps: nat,
    direction: CompletionDirection,
) -> usize
    decreases steps,
{
    if steps == 0 {
        selected
    } else {
        next_selected(
            selected_after(selected, total, (steps - 1) as nat, direction),
            total,
            direction,
        )
    }
}

/// A place counted on around the ends by a number of steps in a direction.
pub open spec fn place_after(
    selected: usize,
    total: nat,
    steps: nat,
    direction: CompletionDirection,
) -> int {
    match direction {
        CompletionDirection::Forward => (selected + steps) % (total as int),
        CompletionDirection::Backward => (selected - steps) % (total as int),
    }
}

/// Counting on by one around an end, or back by one.
proof fn lemma_count_around(count: int, total: int)
    requires
        total > 0,
    ensures
        0 <= count % total < total,
        (count + 1) % total == (if count % total + 1 == total {
            0
        } else {
            count % total + 1
        }),
        (count - 1) % total == (if count % total == 0 {
            total - 1
        } else {
            count % total - 1
        }),
{
    let rest = count % total;
    let rounds = count / total;
    lemma_fundamental_div_mod(count, total);
    assert(total * rounds == rounds * total) by (nonlinear_arith);
    if rest + 1 == total {
        assert((rounds + 1) * total == rounds * total + total) by (nonlinear_arith);
        lemma_fundamental_div_mod_converse(count + 1, total, rounds + 1, 0);
    } else {
        lemma_fundamental_div_mod_converse(count + 1, total, rounds, rest + 1);
    }
    if rest == 0 {
        assert((rounds - 1) * total == rounds * total - total) by (nonlinear_arith);
        lemma_fundamental_div_mod_converse(count - 1, total, rounds - 1, total - 1);
    } else {
        lemma_fundamental_div_mod_converse(count - 1, total, rounds, rest - 1);
    }
}

/// One more step counts on by one more.
pub proof fn lemma_step_counts_on(
    selected: usize,
    total: nat,
    steps: nat,
    direction: CompletionDirection,
)
    requires
        selected < total <= usize::MAX,
    ensures
        place_after(selected, total, 0, direction) == selected,
        0 <= place_after(selected, total, steps, direction) < total,
        place_after(selected, total, steps + 1, direction) == next_selected(
            place_after(selected, total, steps, direction) as usize,
            total,
            direction,
        ),
{
    lemma_count_around(selected + steps, total as int);
    lemma_count_around(selected - steps, total as int);
    lemma_fundamental_div_mod_converse(selected as int, total as int, 0, selected as int);
}

/// Stepping goes around: the candidates are selected in turn, forward with the first one behind the
/// last, and backward with the last one behind the first.
pub proof fn steps_go_around(
    selected: usize,
    total: nat,
    steps: nat,
    direction: CompletionDirection,
)
    requires
        selected < total <= usize::MAX,
    ensures
        selected_after(selected, total, steps, direction) == place_after(
            selected,
            total,
            steps,
            direction,
        ),
    decreases steps,
{
    if steps > 0 {
        steps_go_around(selected, total, (steps - 1) as nat, direction);
        lemma_step_counts_on(selected, total, (steps - 1) as nat, direction);
    } else {
        lemma_step_counts_on(selected, total, 0, direction);
    }
}

} // verus!
