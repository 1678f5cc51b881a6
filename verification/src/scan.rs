//! Scanning a directory, as a small protocol: the directory is created where
//! it is missing, then walked one level deep, and what the walk found is
//! gathered into a set.

use vstd::prelude::*;
use crate::activation::FsEvent;
use crate::sites::{collected, walk_folder, walk_views, SiteSet, WalkEntry};

verus! {

/// What the caller is asked to do next with the directory.
#[derive(Clone, Copy, Debug, PartialEq, Eq)]
pub enum ScanAction {
    /// Find out whether the directory exists.
    ProbeDir,
    /// Create the directory and the directories above it.
    CreateDir,
    /// Walk the directory one level deep and report every entry met.
    Walk,
}

/// What came of an action.
#[derive(Debug, PartialEq, Eq)]
pub enum ScanEvent {
    /// The outcome of a probe or of the creation.
    Fs(FsEvent),
    /// The entries that the walk met, or the failure that ended it.
    Walked(Result<Vec<WalkEntry>, String>),
}

/// Where a scan stands: which answer it waits for.
#[derive(Clone, Copy, Debug, PartialEq, Eq)]
pub enum ScanState {
    Probing,
    Creating,
    Walking,
}

/// Why a directory could not be scanned.
#[derive(Debug, PartialEq, Eq)]
pub enum ScanError {
    /// The filesystem refused an action; the text is its own.
    IoFailure(String),
    /// An event was reported that answers no action asked for.
    OutOfTurn,
}

/// One step of a scan.
#[derive(Debug, PartialEq, Eq)]
pub enum ScanStep {
    /// The caller carries out the action and reports to the state.
    Next(ScanState, ScanAction),
    /// The scan is over.
    Finished(Result<SiteSet, ScanError>),
}

/// Whether `step` is the step that follows when `event` is reported in
/// `state`. A directory that is missing is no failure: it is created, and
/// then walked like one that was there. Every failure that is reported ends
/// the scan, with its text.
pub open spec fn scan_follows(state: ScanState, event: ScanEvent, step: ScanStep) -> bool {
    match (state, event) {
        (ScanState::Probing, ScanEvent::Fs(FsEvent::Exists(true))) => step == ScanStep::Next(
            ScanState::Walking,
            ScanAction::Walk,
        ),
        (ScanState::Probing, ScanEvent::Fs(FsEvent::Exists(false))) => step == ScanStep::Next(
            ScanState::Creating,
            ScanAction::CreateDir,
        ),
        (ScanState::Creating, ScanEvent::Fs(FsEvent::Done)) => step == ScanStep::Next(
            ScanState::Walking,
            ScanAction::Walk,
        ),
        (ScanState::Walking, ScanEvent::Walked(Ok(entries))) => {
            &&& step matches ScanStep::Finished(Ok(files))
            &&& files.wf()
            &&& files@ == collected(walk_views(entries@))
        },
        (_, ScanEvent::Walked(Err(message))) => step == ScanStep::Finished(
            Err(ScanError::IoFailure(message)),
        ),
        (_, ScanEvent::Fs(FsEvent::Failed(fault))) => step == ScanStep::Finished(
            Err(ScanError::IoFailure(fault.message)),
        ),
        (_, _) => step == ScanStep::Finished(Err(ScanError::OutOfTurn)),
    }
}

/// Starts the scan of a directory: says what is to be done first.
pub fn scan() -> (step: ScanStep)
    ensures
        step == ScanStep::Next(ScanState::Probing, ScanAction::ProbeDir),
{
    ScanStep::Next(ScanState::Probing, ScanAction::ProbeDir)
}

impl ScanState {
    /// Takes up the scan with what came of the action last asked for.
    pub fn resume(self, event: ScanEvent) -> (step: ScanStep)
        ensures
            scan_follows(self, event, step),
    {
        match event {
            ScanEvent::Walked(Err(message)) => ScanStep::Finished(Err(ScanError::IoFailure(message))),
            ScanEvent::Fs(FsEvent::Failed(fault)) => ScanStep::Finished(
                Err(ScanError::IoFailure(fault.message)),
            ),
            ScanEvent::Walked(Ok(entries)) => match self {
                ScanState::Walking => ScanStep::Finished(Ok(walk_folder(&entries))),
                _ => ScanStep::Finished(Err(ScanError::OutOfTurn)),
            },
            ScanEvent::Fs(FsEvent::Exists(found)) => match self {
                ScanState::Probing => if found {
                    ScanStep::Next(ScanState::Walking, ScanAction::Walk)
                } else {
                    ScanStep::Next(ScanState::Creating, ScanAction::CreateDir)
                },
                _ => ScanStep::Finished(Err(ScanError::OutOfTurn)),
            },
            ScanEvent::Fs(FsEvent::Done) => match self {
                ScanState::Creating => ScanStep::Next(ScanState::Walking, ScanAction::Walk),
                _ => ScanStep::Finished(Err(ScanError::OutOfTurn)),
            },
        }
    }
}

/// A scan asks for three actions at most, walks the directory once, and
/// creates it only after the probe found it missing.
pub proof fn lemma_scan_bounded(state: ScanState, event: ScanEvent, step: ScanStep)
    requires
        scan_follows(state, event, step),
    ensures
        step matches ScanStep::Next(next, action) ==> {
            &&& next != ScanState::Probing
            &&& state != ScanState::Walking
            &&& (action == ScanAction::CreateDir <==> next == ScanState::Creating)
            &&& (action == ScanAction::CreateDir ==> state == ScanState::Probing && event
                == ScanEvent::Fs(FsEvent::Exists(false)))
            &&& (action == ScanAction::Walk <==> next == ScanState::Walking)
            &&& (next == ScanState::Walking ==> state == ScanState::Probing || state
                == ScanState::Creating)
        },
{
}

} // verus!
