//! Linking a site into the enabled directory and unlinking it again, as two
//! small protocols: the library decides what is done next on the filesystem,
//! the caller does it and reports what came of it.

use vstd::prelude::*;

verus! {

/// The two directories between which sites are linked.
#[derive(Clone, Copy, Debug, PartialEq, Eq)]
pub enum SiteDir {
    Available,
    Enabled,
}

/// What the caller is asked to do next, for the site that the protocol is
/// about.
#[derive(Clone, Copy, Debug, PartialEq, Eq)]
pub enum FsAction {
    /// Find out whether the directory exists.
    ProbeDir(SiteDir),
    /// Create the directory and the directories above it.
    CreateDir(SiteDir),
    /// Find out whether the site has an entry in the directory.
    ProbeSite(SiteDir),
    /// Create the symlink from the enabled directory to the site's file in the
    /// available directory.
    Link,
    /// Remove the site's entry from the enabled directory.
    Unlink,
}

/// A failure that the filesystem reported.
#[derive(Debug, PartialEq, Eq)]
pub struct IoFault {
    /// Whether the failure says that the entry to be created exists already.
    pub already_exists: bool,
    /// The failure in words.
    pub message: String,
}

/// What came of an action.
#[derive(Debug, PartialEq, Eq)]
pub enum FsEvent {
    /// The answer to a probe.
    Exists(bool),
    /// The action was carried out.
    Done,
    /// The action failed.
    Failed(IoFault),
}

/// Why a site could not be linked or unlinked.
#[derive(Debug, PartialEq, Eq)]
pub enum ActivationError {
    /// The filesystem refused an action; the text is its own.
    IoFailure(String),
    /// The enabled entry kept coming back after each removal.
    RetryExhausted,
    /// An event was reported that answers no action asked for.
    OutOfTurn,
}

/// How an activation that did not fail ended.
#[derive(Clone, Copy, Debug, PartialEq, Eq)]
pub enum Activated {
    /// The symlink stands.
    Linked,
    /// The site has no file in the available directory: nothing was done.
    NotFound,
}

/// How a deactivation that did not fail ended.
#[derive(Clone, Copy, Debug, PartialEq, Eq)]
pub enum Deactivated {
    /// The entry was removed.
    Removed,
    /// There was no entry: nothing was done.
    Absent,
}

/// The most often that one activation tries to create the symlink.
pub const MAX_LINK_ATTEMPTS: u32 = 8;

/// Where an activation stands: which answer it waits for.
#[derive(Clone, Copy, Debug, PartialEq, Eq)]
pub enum LinkState {
    ProbingEnabledDir,
    CreatingEnabledDir,
    ProbingAvailableDir,
    CreatingAvailableDir,
    ProbingSite,
    /// Waiting for the symlink's creation; the number counts the attempts,
    /// this one included.
    Linking(u32),
    /// Waiting for the removal of the entry that was in the way of the given
    /// attempt.
    Clearing(u32),
}

/// One step of an activation.
#[derive(Debug, PartialEq, Eq)]
pub enum LinkStep {
    /// The caller carries out the action and reports to the state.
    Next(LinkState, FsAction),
    /// The activation is over.
    Finished(Result<Activated, ActivationError>),
}

/// The step that an event leads to when it is a failure or answers nothing
/// that was asked.
pub open spec fn link_refused(event: FsEvent) -> LinkStep {
    match event {
        FsEvent::Failed(fault) => LinkStep::Finished(Err(ActivationError::IoFailure(fault.message))),
        _ => LinkStep::Finished(Err(ActivationError::OutOfTurn)),
    }
}

/// The first step of an activation.
pub open spec fn link_start() -> LinkStep {
    LinkStep::Next(LinkState::ProbingEnabledDir, FsAction::ProbeDir(SiteDir::Enabled))
}

/// The step that follows when `event` is reported in `state`.
///
/// Both directories are created where they are missing. A site without a file
/// in the available directory is passed over. Where the symlink cannot be
/// created because an entry is in its place, the entry is removed and the
/// creation tried again, `MAX_LINK_ATTEMPTS` times at most. Every other
/// failure ends the activation.
pub open spec fn link_next(state: LinkState, event: FsEvent) -> LinkStep {
    match (state, event) {
        (LinkState::ProbingEnabledDir, FsEvent::Exists(true)) => LinkStep::Next(
            LinkState::ProbingAvailableDir,
            FsAction::ProbeDir(SiteDir::Available),
        ),
        (LinkState::ProbingEnabledDir, FsEvent::Exists(false)) => LinkStep::Next(
            LinkState::CreatingEnabledDir,
            FsAction::CreateDir(SiteDir::Enabled),
        ),
        (LinkState::CreatingEnabledDir, FsEvent::Done) => LinkStep::Next(
            LinkState::ProbingAvailableDir,
            FsAction::ProbeDir(SiteDir::Available),
        ),
        (LinkState::ProbingAvailableDir, FsEvent::Exists(true)) => LinkStep::Next(
            LinkState::ProbingSite,
            FsAction::ProbeSite(SiteDir::Available),
        ),
        (LinkState::ProbingAvailableDir, FsEvent::Exists(false)) => LinkStep::Next(
            LinkState::CreatingAvailableDir,
            FsAction::CreateDir(SiteDir::Available),
        ),
        (LinkState::CreatingAvailableDir, FsEvent::Done) => LinkStep::Next(
            LinkState::ProbingSite,
            FsAction::ProbeSite(SiteDir::Available),
        ),
        (LinkState::ProbingSite, FsEvent::Exists(true)) => LinkStep::Next(
            LinkState::Linking(1),
            FsAction::Link,
        ),
        (LinkState::ProbingSite, FsEvent::Exists(false)) => LinkStep::Finished(
            Ok(Activated::NotFound),
        ),
        (LinkState::Linking(_), FsEvent::Done) => LinkStep::Finished(Ok(Activated::Linked)),
        (LinkState::Linking(attempt), FsEvent::Failed(fault)) => if !fault.already_exists {
            LinkStep::Finished(Err(ActivationError::IoFailure(fault.message)))
        } else if attempt < MAX_LINK_ATTEMPTS {
            LinkStep::Next(LinkState::Clearing(attempt), FsAction::Unlink)
        } else {
            LinkStep::Finished(Err(ActivationError::RetryExhausted))
        },
        (LinkState::Clearing(attempt), FsEvent::Done) => if attempt < MAX_LINK_ATTEMPTS {
            LinkStep::Next(LinkState::Linking((attempt + 1) as u32), FsAction::Link)
        } else {
            LinkStep::Finished(Err(ActivationError::RetryExhausted))
        },
        (_, event) => link_refused(event),
    }
}

/// Starts the activation of a site: says what is to be done first.
pub fn sym_link() -> (step: LinkStep)
    ensures
        step == link_start(),
{
    LinkStep::Next(LinkState::ProbingEnabledDir, FsAction::ProbeDir(SiteDir::Enabled))
}

impl LinkState {
    /// Takes up the activation with what came of the action last asked for.
    pub fn resume(self, event: FsEvent) -> (step: LinkStep)
        ensures
            step == link_next(self, event),
    {
        match (self, event) {
            (LinkState::ProbingEnabledDir, FsEvent::Exists(true)) => LinkStep::Next(
                LinkState::ProbingAvailableDir,
                FsAction::ProbeDir(SiteDir::Available),
            ),
            (LinkState::ProbingEnabledDir, FsEvent::Exists(false)) => LinkStep::Next(
                LinkState::CreatingEnabledDir,
                FsAction::CreateDir(SiteDir::Enabled),
            ),
            (LinkState::CreatingEnabledDir, FsEvent::Done) => LinkStep::Next(
                LinkState::ProbingAvailableDir,
                FsAction::ProbeDir(SiteDir::Available),
            ),
            (LinkState::ProbingAvailableDir, FsEvent::Exists(true)) => LinkStep::Next(
                LinkState::ProbingSite,
                FsAction::ProbeSite(SiteDir::Available),
            ),
            (LinkState::ProbingAvailableDir, FsEvent::Exists(false)) => LinkStep::Next(
                LinkState::CreatingAvailableDir,
                FsAction::CreateDir(SiteDir::Available),
            ),
            (LinkState::CreatingAvailableDir, FsEvent::Done) => LinkStep::Next(
                LinkState::ProbingSite,
                FsAction::ProbeSite(SiteDir::Available),
            ),
            (LinkState::ProbingSite, FsEvent::Exists(true)) => LinkStep::Next(
                LinkState::Linking(1),
                FsAction::Link,
            ),
            (LinkState::ProbingSite, FsEvent::Exists(false)) => LinkStep::Finished(
                Ok(Activated::NotFound),
            ),
            (LinkState::Linking(_), FsEvent::Done) => LinkStep::Finished(Ok(Activated::Linked)),
            (LinkState::Linking(attempt), FsEvent::Failed(fault)) => {
                if !fault.already_exists {
                    LinkStep::Finished(Err(ActivationError::IoFailure(fault.message)))
                } else if attempt < MAX_LINK_ATTEMPTS {
                    LinkStep::Next(LinkState::Clearing(attempt), FsAction::Unlink)
                } else {
                    LinkStep::Finished(Err(ActivationError::RetryExhausted))
                }
            },
            (LinkState::Clearing(attempt), FsEvent::Done) => {
                if attempt < MAX_LINK_ATTEMPTS {
                    LinkStep::Next(LinkState::Linking(attempt + 1), FsAction::Link)
                } else {
                    LinkStep::Finished(Err(ActivationError::RetryExhausted))
                }
            },
            (_, FsEvent::Failed(fault)) => LinkStep::Finished(
                Err(ActivationError::IoFailure(fault.message)),
            ),
            (_, _) => LinkStep::Finished(Err(ActivationError::OutOfTurn)),
        }
    }
}

/// How many more actions an activation in `state` can ask for, the one that
/// it waits on not counted.
pub open spec fn link_budget(state: LinkState) -> nat {
    match state {
        LinkState::ProbingEnabledDir => 2 * MAX_LINK_ATTEMPTS as nat + 4,
        LinkState::CreatingEnabledDir => 2 * MAX_LINK_ATTEMPTS as nat + 3,
        LinkState::ProbingAvailableDir => 2 * MAX_LINK_ATTEMPTS as nat + 2,
        LinkState::CreatingAvailableDir => 2 * MAX_LINK_ATTEMPTS as nat + 1,
        LinkState::ProbingSite => 2 * MAX_LINK_ATTEMPTS as nat,
        LinkState::Linking(attempt) => if attempt < MAX_LINK_ATTEMPTS {
            (2 * (MAX_LINK_ATTEMPTS - attempt)) as nat
        } else {
            0
        },
        LinkState::Clearing(attempt) => if attempt < MAX_LINK_ATTEMPTS {
            (2 * (MAX_LINK_ATTEMPTS - attempt) - 1) as nat
        } else {
            0
        },
    }
}

/// Whatever is reported, an activation comes to an end: each step leaves it
/// fewer actions to ask for, and the symlink's creation is never tried more
/// than `MAX_LINK_ATTEMPTS` times.
pub proof fn lemma_link_bounded(state: LinkState, event: FsEvent)
    ensures
        match link_next(state, event) {
            LinkStep::Next(next, action) => {
                &&& link_budget(next) < link_budget(state)
                &&& next matches LinkState::Linking(attempt) ==> 1 <= attempt <= MAX_LINK_ATTEMPTS
            },
            LinkStep::Finished(_) => true,
        },
{
}

/// An activation removes an entry only to make way for the symlink, after the
/// filesystem said that one is in its place, and it asks for nothing else
/// that takes anything away.
pub proof fn lemma_link_unlinks_on_collision_only(state: LinkState, event: FsEvent)
    ensures
        link_next(state, event) matches LinkStep::Next(_, FsAction::Unlink) ==> {
            &&& state is Linking
            &&& event matches FsEvent::Failed(fault) && fault.already_exists
        },
{
}

/// Where a deactivation stands: which answer it waits for.
#[derive(Clone, Copy, Debug, PartialEq, Eq)]
pub enum UnlinkState {
    ProbingSite,
    Removing,
}

/// One step of a deactivation.
#[derive(Debug, PartialEq, Eq)]
pub enum UnlinkStep {
    /// The caller carries out the action and reports to the state.
    Next(UnlinkState, FsAction),
    /// The deactivation is over.
    Finished(Result<Deactivated, ActivationError>),
}

/// The first step of a deactivation.
pub open spec fn unlink_start() -> UnlinkStep {
    UnlinkStep::Next(UnlinkState::ProbingSite, FsAction::ProbeSite(SiteDir::Enabled))
}

/// The step that follows when `event` is reported in `state`: an entry that
/// is there is removed, one that is not is no failure, and nothing is asked
/// of the available directory.
pub open spec fn unlink_next(state: UnlinkState, event: FsEvent) -> UnlinkStep {
    match (state, event) {
        (UnlinkState::ProbingSite, FsEvent::Exists(true)) => UnlinkStep::Next(
            UnlinkState::Removing,
            FsAction::Unlink,
        ),
        (UnlinkState::ProbingSite, FsEvent::Exists(false)) => UnlinkStep::Finished(
            Ok(Deactivated::Absent),
        ),
        (UnlinkState::Removing, FsEvent::Done) => UnlinkStep::Finished(Ok(Deactivated::Removed)),
        (_, FsEvent::Failed(fault)) => UnlinkStep::Finished(
            Err(ActivationError::IoFailure(fault.message)),
        ),
        (_, _) => UnlinkStep::Finished(Err(ActivationError::OutOfTurn)),
    }
}

/// Starts the deactivation of a site: says what is to be done first.
pub fn rm_symlink() -> (step: UnlinkStep)
    ensures
        step == unlink_start(),
{
    UnlinkStep::Next(UnlinkState::ProbingSite, FsAction::ProbeSite(SiteDir::Enabled))
}

impl UnlinkState {
    /// Takes up the deactivation with what came of the action last asked for.
    pub fn resume(self, event: FsEvent) -> (step: UnlinkStep)
        ensures
            step == unlink_next(self, event),
    {
        match event {
            FsEvent::Exists(found) => match self {
                UnlinkState::ProbingSite => if found {
                    UnlinkStep::Next(UnlinkState::Removing, FsAction::Unlink)
                } else {
                    UnlinkStep::Finished(Ok(Deactivated::Absent))
                },
                UnlinkState::Removing => UnlinkStep::Finished(Err(ActivationError::OutOfTurn)),
            },
            FsEvent::Done => match self {
                UnlinkState::Removing => UnlinkStep::Finished(Ok(Deactivated::Removed)),
                UnlinkState::ProbingSite => UnlinkStep::Finished(Err(ActivationError::OutOfTurn)),
            },
            FsEvent::Failed(fault) => UnlinkStep::Finished(
                Err(ActivationError::IoFailure(fault.message)),
            ),
        }
    }
}

/// A deactivation asks for two actions at most, and never touches the
/// available directory.
pub proof fn lemma_unlink_bounded(state: UnlinkState, event: FsEvent)
    ensures
        match unlink_next(state, event) {
            UnlinkStep::Next(next, action) => {
                &&& state == UnlinkState::ProbingSite
                &&& next == UnlinkState::Removing
                &&& action == FsAction::Unlink
            },
            UnlinkStep::Finished(_) => true,
        },
{
}

} // verus!
