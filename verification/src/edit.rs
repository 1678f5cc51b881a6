//! Editing a site's file in the editor, as a small protocol.

use vstd::prelude::*;

verus! {

/// What the caller is asked to do next for the file to be edited.
#[derive(Clone, Copy, Debug, PartialEq, Eq)]
pub enum EditAction {
    /// Find out whether the file exists.
    Probe,
    /// Run the editor on the file and wait for it to end.
    Edit,
}

/// What came of an action.
#[derive(Debug, PartialEq, Eq)]
pub enum EditEvent {
    /// The answer to the probe.
    Exists(bool),
    /// The editor ended: whether with status zero, and its status in words.
    Ended { success: bool, status: String },
    /// The editor could not be run.
    Failed(String),
}

/// Where an edit stands: which answer it waits for.
#[derive(Clone, Copy, Debug, PartialEq, Eq)]
pub enum EditState {
    Probing,
    Editing,
}

/// How an edit ended.
#[derive(Debug, PartialEq, Eq)]
pub enum Edited {
    /// The editor ended with status zero.
    Done,
    /// There is no such file: the editor was not run.
    NotFound,
    /// The editor could not be run, or ended with another status; the text
    /// says which.
    Failed(String),
    /// An event was reported that answers no action asked for.
    OutOfTurn,
}

/// One step of an edit.
#[derive(Debug, PartialEq, Eq)]
pub enum EditStep {
    /// The caller carries out the action and reports to the state.
    Next(EditState, EditAction),
    /// The edit is over.
    Finished(Edited),
}

/// The step that follows when `event` is reported in `state`.
pub open spec fn edit_next(state: EditState, event: EditEvent) -> EditStep {
    match (state, event) {
        (EditState::Probing, EditEvent::Exists(true)) => EditStep::Next(
            EditState::Editing,
            EditAction::Edit,
        ),
        (EditState::Probing, EditEvent::Exists(false)) => EditStep::Finished(Edited::NotFound),
        (EditState::Editing, EditEvent::Ended { success, status }) => if success {
            EditStep::Finished(Edited::Done)
        } else {
            EditStep::Finished(Edited::Failed(status))
        },
        (_, EditEvent::Failed(message)) => EditStep::Finished(Edited::Failed(message)),
        (_, _) => EditStep::Finished(Edited::OutOfTurn),
    }
}

/// Starts the edit of a site's file: says what is to be done first.
pub fn edit_nginx_site() -> (step: EditStep)
    ensures
        step == EditStep::Next(EditState::Probing, EditAction::Probe),
{
    EditStep::Next(EditState::Probing, EditAction::Probe)
}

impl EditState {
    /// Takes up the edit with what came of the action last asked for.
    pub fn resume(self, event: EditEvent) -> (step: EditStep)
        ensures
            step == edit_next(self, event),
    {
        match event {
            EditEvent::Failed(message) => EditStep::Finished(Edited::Failed(message)),
            EditEvent::Exists(found) => match self {
                EditState::Probing => if found {
                    EditStep::Next(EditState::Editing, EditAction::Edit)
                } else {
                    EditStep::Finished(Edited::NotFound)
                },
                EditState::Editing => EditStep::Finished(Edited::OutOfTurn),
            },
            EditEvent::Ended { success, status } => match self {
                EditState::Editing => if success {
                    EditStep::Finished(Edited::Done)
                } else {
                    EditStep::Finished(Edited::Failed(status))
                },
                EditState::Probing => EditStep::Finished(Edited::OutOfTurn),
            },
        }
    }
}

} // verus!
