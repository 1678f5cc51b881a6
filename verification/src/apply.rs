//! Applying a batch of changes to the running server: the configuration is
//! validated first, and the server is asked to reload only when that
//! succeeded.

use vstd::prelude::*;
use vstd::utf8::{decode_utf8, valid_utf8};

verus! {

/// What came of running an external command.
#[derive(Debug, PartialEq, Eq)]
pub struct CommandOutput {
    /// Whether the command exited with status zero.
    pub success: bool,
    /// What it wrote to standard error.
    pub stderr: Vec<u8>,
}

/// The text that `String::from_utf8_lossy` makes of `bytes`.
pub uninterp spec fn utf8_lossy(bytes: Seq<u8>) -> Seq<char>;

/// Turns bytes into text with `String::from_utf8_lossy`: valid UTF-8 is
/// decoded as it stands, and each invalid sequence gives a replacement
/// character, which the contract leaves to `utf8_lossy`.
#[verifier::external_body]
pub(crate) fn lossy_text(bytes: &[u8]) -> (text: String)
    ensures
        text@ == utf8_lossy(bytes@),
        valid_utf8(bytes@) ==> text@ == decode_utf8(bytes@),
{
    String::from_utf8_lossy(bytes).into_owned()
}

/// What a command's output says of it: nothing to report where it succeeded,
/// else what it wrote to standard error.
pub open spec fn diagnosis(output: CommandOutput) -> Result<(), Seq<char>> {
    if output.success {
        Ok(())
    } else {
        Err(utf8_lossy(output.stderr@))
    }
}

/// The diagnosis of `r`, with the text as a sequence of characters.
pub open spec fn diagnosis_view(r: Result<(), String>) -> Result<(), Seq<char>> {
    match r {
        Ok(()) => Ok(()),
        Err(text) => Err(text@),
    }
}

/// Reads the outcome of a command: success, or the failure with the text
/// that the command gave on standard error. Text that is valid UTF-8 is
/// handed on as it was written.
pub fn diagnose(output: &CommandOutput) -> (r: Result<(), String>)
    ensures
        diagnosis_view(r) == diagnosis(*output),
        !output.success && valid_utf8(output.stderr@) ==> r is Err && r->Err_0@ == decode_utf8(
            output.stderr@,
        ),
{
    if output.success {
        Ok(())
    } else {
        Err(lossy_text(output.stderr.as_slice()))
    }
}

/// Reads the outcome of the configuration test.
pub fn test_nginx(output: &CommandOutput) -> (r: Result<(), String>)
    ensures
        diagnosis_view(r) == diagnosis(*output),
        !output.success && valid_utf8(output.stderr@) ==> r is Err && r->Err_0@ == decode_utf8(
            output.stderr@,
        ),
{
    diagnose(output)
}

/// Reads the outcome of the request to reload.
pub fn reload_nginx(output: &CommandOutput) -> (r: Result<(), String>)
    ensures
        diagnosis_view(r) == diagnosis(*output),
        !output.success && valid_utf8(output.stderr@) ==> r is Err && r->Err_0@ == decode_utf8(
            output.stderr@,
        ),
{
    diagnose(output)
}

/// The two external steps of the protocol.
#[derive(Clone, Copy, Debug, PartialEq, Eq)]
pub enum ApplyAction {
    /// Check the configuration's syntax.
    Validate,
    /// Ask the server to reload.
    Reload,
}

/// Where the protocol stands: which step's outcome it waits for.
#[derive(Clone, Copy, Debug, PartialEq, Eq)]
pub enum ApplyState {
    Validating,
    Reloading,
}

/// How the protocol ended.
#[derive(Debug, PartialEq, Eq)]
pub enum ApplyOutcome {
    /// The configuration was valid and the server was asked to reload.
    Applied,
    /// The configuration was found invalid; the server was left alone.
    ValidationFailed(String),
    /// The configuration was valid, but the reload failed.
    ReloadFailed(String),
}

/// One step of the protocol.
#[derive(Debug, PartialEq, Eq)]
pub enum ApplyStep {
    /// The caller runs the action and reports its outcome to the state.
    Next(ApplyState, ApplyAction),
    /// The protocol is over.
    Finished(ApplyOutcome),
}

/// The first step: the configuration is validated.
pub open spec fn apply_start() -> ApplyStep {
    ApplyStep::Next(ApplyState::Validating, ApplyAction::Validate)
}

/// The step that follows when the action waited for in `state` ended with
/// `outcome`.
pub open spec fn apply_next(state: ApplyState, outcome: Result<(), String>) -> ApplyStep {
    match (state, outcome) {
        (ApplyState::Validating, Ok(_)) => ApplyStep::Next(ApplyState::Reloading, ApplyAction::Reload),
        (ApplyState::Validating, Err(text)) => ApplyStep::Finished(ApplyOutcome::ValidationFailed(text)),
        (ApplyState::Reloading, Ok(_)) => ApplyStep::Finished(ApplyOutcome::Applied),
        (ApplyState::Reloading, Err(text)) => ApplyStep::Finished(ApplyOutcome::ReloadFailed(text)),
    }
}

/// Starts the protocol, once for a whole batch of changes.
pub fn apply() -> (step: ApplyStep)
    ensures
        step == apply_start(),
{
    ApplyStep::Next(ApplyState::Validating, ApplyAction::Validate)
}

impl ApplyState {
    /// Takes up the protocol with the outcome of the action last asked for.
    pub fn resume(self, outcome: Result<(), String>) -> (step: ApplyStep)
        ensures
            step == apply_next(self, outcome),
    {
        match self {
            ApplyState::Validating => match outcome {
                Ok(_) => ApplyStep::Next(ApplyState::Reloading, ApplyAction::Reload),
                Err(text) => ApplyStep::Finished(ApplyOutcome::ValidationFailed(text)),
            },
            ApplyState::Reloading => match outcome {
                Ok(_) => ApplyStep::Finished(ApplyOutcome::Applied),
                Err(text) => ApplyStep::Finished(ApplyOutcome::ReloadFailed(text)),
            },
        }
    }
}

/// The answer to the question whether to test and reload.
#[derive(Clone, Copy, Debug, PartialEq, Eq)]
pub enum YesNo {
    Yes,
    No,
}

impl YesNo {
    /// The word under which the answer is offered.
    pub open spec fn words(self) -> Seq<char> {
        match self {
            YesNo::Yes => "Yes"@,
            YesNo::No => "No"@,
        }
    }

    /// The word under which the answer is offered.
    pub fn label(self) -> (s: &'static str)
        ensures
            s@ == self.words(),
    {
        match self {
            YesNo::Yes => "Yes",
            YesNo::No => "No",
        }
    }

    /// The answers in the order in which they are offered.
    pub fn choices() -> (all: Vec<YesNo>)
        ensures
            all@ == seq![YesNo::Yes, YesNo::No],
    {
        let mut all: Vec<YesNo> = Vec::new();
        all.push(YesNo::Yes);
        all.push(YesNo::No);
        assert(all@ =~= seq![YesNo::Yes, YesNo::No]);
        all
    }
}

/// Starts the protocol where the answer is yes, and leaves it where it is no.
pub fn ng_test_reload(answer: YesNo) -> (step: Option<ApplyStep>)
    ensures
        step == (match answer {
            YesNo::Yes => Some(apply_start()),
            YesNo::No => None,
        }),
{
    match answer {
        YesNo::Yes => Some(apply()),
        YesNo::No => None,
    }
}

/// The actions that the protocol asks for, in their order, and the step at
/// which it stops, when it starts at `step`, each action ends as `stub` says,
/// and `fuel` actions are run at most.
pub open spec fn apply_run(
    stub: spec_fn(ApplyAction) -> Result<(), String>,
    step: ApplyStep,
    fuel: nat,
) -> (Seq<ApplyAction>, ApplyStep)
    decreases fuel,
{
    match step {
        ApplyStep::Next(state, action) if fuel > 0 => {
            let (asked, last) = apply_run(stub, apply_next(state, stub(action)), (fuel - 1) as nat);
            (seq![action] + asked, last)
        },
        _ => (Seq::empty(), step),
    }
}

/// The whole protocol against `stub`.
pub open spec fn applied(stub: spec_fn(ApplyAction) -> Result<(), String>) -> (
    Seq<ApplyAction>,
    ApplyStep,
) {
    apply_run(stub, apply_start(), 2)
}

/// A reload is asked for only by the step that takes a successful validation.
pub proof fn lemma_reload_follows_validation(state: ApplyState, outcome: Result<(), String>)
    ensures
        apply_next(state, outcome) matches ApplyStep::Next(_, action) ==> {
            &&& action == ApplyAction::Reload
            &&& state == ApplyState::Validating
            &&& outcome is Ok
        },
{
}

/// Where the validation fails, the reload is never asked for, and the
/// outcome carries the validation's text as it was given.
pub proof fn lemma_failed_validation_stops(stub: spec_fn(ApplyAction) -> Result<(), String>)
    requires
        stub(ApplyAction::Validate) is Err,
    ensures
        applied(stub).0 == seq![ApplyAction::Validate],
        !applied(stub).0.contains(ApplyAction::Reload),
        applied(stub).1 == ApplyStep::Finished(
            ApplyOutcome::ValidationFailed(stub(ApplyAction::Validate)->Err_0),
        ),
{
    reveal_with_fuel(apply_run, 3);
    assert(applied(stub).0 =~= seq![ApplyAction::Validate]);
    assert(seq![ApplyAction::Validate][0] == ApplyAction::Validate);
}

/// Where the validation succeeds, the reload is asked for once, right after
/// it; a reload that fails is reported as such, with its own text, and not as
/// a failed validation.
pub proof fn lemma_valid_configuration_reloads(stub: spec_fn(ApplyAction) -> Result<(), String>)
    requires
        stub(ApplyAction::Validate) is Ok,
    ensures
        applied(stub).0 == seq![ApplyAction::Validate, ApplyAction::Reload],
        applied(stub).1 == ApplyStep::Finished(
            match stub(ApplyAction::Reload) {
                Ok(_) => ApplyOutcome::Applied,
                Err(text) => ApplyOutcome::ReloadFailed(text),
            },
        ),
        !(applied(stub).1 matches ApplyStep::Finished(ApplyOutcome::ValidationFailed(_))),
{
    reveal_with_fuel(apply_run, 3);
    assert(applied(stub).0 =~= seq![ApplyAction::Validate, ApplyAction::Reload]);
}

} // verus!
