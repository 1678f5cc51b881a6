//! A batch of changes: the chosen sites are linked or unlinked one after the
//! other, and the server is validated and reloaded once, after the last of
//! them, and only if none failed.

use vstd::prelude::*;
use crate::activation::ActivationError;
use crate::apply::{apply_next, apply_start, ApplyAction, ApplyOutcome, ApplyState, ApplyStep};

verus! {

/// What the caller is asked to do next.
#[derive(Clone, Copy, Debug, PartialEq, Eq)]
pub enum BatchAction {
    /// Link or unlink the chosen site with this place in the choice.
    Change(usize),
    /// Run a step of the apply protocol.
    Apply(ApplyAction),
}

/// What came of an action.
#[derive(Debug, PartialEq, Eq)]
pub enum BatchEvent {
    /// How the change of one site ended.
    Changed(Result<(), ActivationError>),
    /// How a step of the apply protocol ended.
    Ran(Result<(), String>),
}

/// Where a batch stands: which answer it waits for.
#[derive(Clone, Copy, Debug, PartialEq, Eq)]
pub enum BatchState {
    /// Waiting for the change of site `next` out of `chosen`.
    Changing { next: usize, chosen: usize },
    /// Waiting for a step of the apply protocol.
    Applying(ApplyState),
}

/// How a batch ended.
#[derive(Debug, PartialEq, Eq)]
pub enum BatchOutcome {
    /// No site was chosen: nothing was changed and the server was left alone.
    NothingChosen,
    /// The change of the site at this place failed: the sites after it were
    /// not touched and the server was left alone.
    ChangeFailed(usize, ActivationError),
    /// Every site was changed, and the apply protocol ended like this.
    Settled(ApplyOutcome),
    /// An event was reported that answers no action asked for.
    OutOfTurn,
}

/// One step of a batch.
#[derive(Debug, PartialEq, Eq)]
pub enum BatchStep {
    /// The caller carries out the action and reports to the state.
    Next(BatchState, BatchAction),
    /// The batch is over.
    Finished(BatchOutcome),
}

/// A step of the apply protocol as a step of the batch.
pub open spec fn settle(step: ApplyStep) -> BatchStep {
    match step {
        ApplyStep::Next(state, action) => BatchStep::Next(
            BatchState::Applying(state),
            BatchAction::Apply(action),
        ),
        ApplyStep::Finished(outcome) => BatchStep::Finished(BatchOutcome::Settled(outcome)),
    }
}

/// The first step of a batch of `chosen` sites.
pub open spec fn batch_start(chosen: usize) -> BatchStep {
    if chosen == 0 {
        BatchStep::Finished(BatchOutcome::NothingChosen)
    } else {
        BatchStep::Next(BatchState::Changing { next: 0, chosen }, BatchAction::Change(0))
    }
}

/// The step that follows when `event` is reported in `state`.
pub open spec fn batch_next(state: BatchState, event: BatchEvent) -> BatchStep {
    match (state, event) {
        (BatchState::Changing { next, chosen }, BatchEvent::Changed(Ok(_))) => if next + 1 < chosen {
            BatchStep::Next(
                BatchState::Changing { next: (next + 1) as usize, chosen },
                BatchAction::Change((next + 1) as usize),
            )
        } else {
            settle(apply_start())
        },
        (BatchState::Changing { next, chosen }, BatchEvent::Changed(Err(error))) => BatchStep::Finished(
            BatchOutcome::ChangeFailed(next, error),
        ),
        (BatchState::Applying(state), BatchEvent::Ran(outcome)) => settle(apply_next(state, outcome)),
        (_, _) => BatchStep::Finished(BatchOutcome::OutOfTurn),
    }
}

/// Starts a batch for `chosen` sites.
pub fn batch(chosen: usize) -> (step: BatchStep)
    ensures
        step == batch_start(chosen),
{
    if chosen == 0 {
        BatchStep::Finished(BatchOutcome::NothingChosen)
    } else {
        BatchStep::Next(BatchState::Changing { next: 0, chosen }, BatchAction::Change(0))
    }
}

/// Turns a step of the apply protocol into a step of the batch.
fn settled(step: ApplyStep) -> (r: BatchStep)
    ensures
        r == settle(step),
{
    match step {
        ApplyStep::Next(state, action) => BatchStep::Next(
            BatchState::Applying(state),
            BatchAction::Apply(action),
        ),
        ApplyStep::Finished(outcome) => BatchStep::Finished(BatchOutcome::Settled(outcome)),
    }
}

impl BatchState {
    /// Takes up the batch with what came of the action last asked for.
    pub fn resume(self, event: BatchEvent) -> (step: BatchStep)
        ensures
            step == batch_next(self, event),
    {
        match self {
            BatchState::Changing { next, chosen } => match event {
                BatchEvent::Changed(Ok(_)) => {
                    if next < chosen && next + 1 < chosen {
                        BatchStep::Next(
                            BatchState::Changing { next: next + 1, chosen },
                            BatchAction::Change(next + 1),
                        )
                    } else {
                        settled(crate::apply::apply())
                    }
                },
                BatchEvent::Changed(Err(error)) => BatchStep::Finished(
                    BatchOutcome::ChangeFailed(next, error),
                ),
                BatchEvent::Ran(_) => BatchStep::Finished(BatchOutcome::OutOfTurn),
            },
            BatchState::Applying(state) => match event {
                BatchEvent::Ran(outcome) => settled(state.resume(outcome)),
                BatchEvent::Changed(_) => BatchStep::Finished(BatchOutcome::OutOfTurn),
            },
        }
    }
}

/// The validation is asked for once for the whole batch: by the step that
/// takes the success of the last change, and by no other.
pub proof fn lemma_validation_after_last_change(state: BatchState, event: BatchEvent)
    ensures
        batch_next(state, event) matches BatchStep::Next(_, BatchAction::Apply(ApplyAction::Validate))
            <==> (state matches BatchState::Changing { next, chosen } && next + 1 >= chosen
            && event matches BatchEvent::Changed(Ok(_))),
{
}

/// The reload is asked for only by the step that takes a successful
/// validation.
pub proof fn lemma_reload_after_validation(state: BatchState, event: BatchEvent)
    ensures
        batch_next(state, event) matches BatchStep::Next(_, BatchAction::Apply(ApplyAction::Reload))
            <==> (state == BatchState::Applying(ApplyState::Validating)
            && event matches BatchEvent::Ran(Ok(_))),
{
}

/// Once the apply protocol has begun, no site is changed any more: a failed
/// validation undoes nothing.
pub proof fn lemma_no_change_after_apply(state: ApplyState, event: BatchEvent)
    ensures
        !(batch_next(BatchState::Applying(state), event) matches BatchStep::Next(_, BatchAction::Change(_))),
        !(batch_next(BatchState::Applying(state), event) matches BatchStep::Next(BatchState::Changing { .. }, _)),
{
}

/// The sites are changed in the order of the choice, each after the one
/// before it succeeded; a change that fails ends the batch at once.
pub proof fn lemma_changes_in_order(state: BatchState, event: BatchEvent)
    ensures
        batch_next(state, event) matches BatchStep::Next(_, BatchAction::Change(place)) ==> (state
            matches BatchState::Changing { next, chosen } && place == next + 1 && place < chosen
            && event matches BatchEvent::Changed(Ok(_))),
        (state matches BatchState::Changing { .. } && event matches BatchEvent::Changed(Err(_)))
            ==> batch_next(state, event) is Finished,
{
}

} // verus!
