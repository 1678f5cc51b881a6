use ngsite::activation::ActivationError;
use ngsite::apply::{
    apply, diagnose, ng_test_reload, reload_nginx, test_nginx, ApplyAction, ApplyOutcome,
    ApplyState, ApplyStep, CommandOutput, YesNo,
};
use ngsite::batch::{batch, BatchAction, BatchEvent, BatchOutcome, BatchState, BatchStep};

/// Runs the protocol against two stubs and counts how often each was called.
fn run(validate: Result<(), String>, reload: Result<(), String>) -> (ApplyOutcome, usize, usize) {
    let mut validations = 0;
    let mut reloads = 0;
    let mut step = apply();
    loop {
        match step {
            ApplyStep::Finished(outcome) => return (outcome, validations, reloads),
            ApplyStep::Next(state, action) => {
                let result = match action {
                    ApplyAction::Validate => {
                        validations += 1;
                        validate.clone()
                    }
                    ApplyAction::Reload => {
                        reloads += 1;
                        reload.clone()
                    }
                };
                step = state.resume(result);
            }
        }
    }
}

#[test]
fn failed_validation_never_reloads() {
    let text = "nginx: [emerg] unexpected \"}\" in /etc/nginx/nginx.conf:12\n".to_string();
    let (outcome, validations, reloads) = run(Err(text.clone()), Ok(()));
    assert_eq!(outcome, ApplyOutcome::ValidationFailed(text));
    assert_eq!(validations, 1);
    assert_eq!(reloads, 0);
}

#[test]
fn failed_reload_is_told_apart_from_failed_validation() {
    let text = "Job for nginx.service failed.".to_string();
    let (outcome, validations, reloads) = run(Ok(()), Err(text.clone()));
    assert_eq!(outcome, ApplyOutcome::ReloadFailed(text.clone()));
    assert_ne!(outcome, ApplyOutcome::ValidationFailed(text));
    assert_eq!(validations, 1);
    assert_eq!(reloads, 1);
}

#[test]
fn valid_configuration_is_applied() {
    let (outcome, validations, reloads) = run(Ok(()), Ok(()));
    assert_eq!(outcome, ApplyOutcome::Applied);
    assert_eq!(validations, 1);
    assert_eq!(reloads, 1);
}

#[test]
fn apply_steps_follow_the_table() {
    assert_eq!(apply(), ApplyStep::Next(ApplyState::Validating, ApplyAction::Validate));
    assert_eq!(
        ApplyState::Validating.resume(Ok(())),
        ApplyStep::Next(ApplyState::Reloading, ApplyAction::Reload)
    );
    assert_eq!(
        ApplyState::Validating.resume(Err(String::new())),
        ApplyStep::Finished(ApplyOutcome::ValidationFailed(String::new()))
    );
    assert_eq!(ApplyState::Reloading.resume(Ok(())), ApplyStep::Finished(ApplyOutcome::Applied));
}

#[test]
fn answer_no_skips_test_and_reload() {
    assert_eq!(ng_test_reload(YesNo::No), None);
    assert_eq!(
        ng_test_reload(YesNo::Yes),
        Some(ApplyStep::Next(ApplyState::Validating, ApplyAction::Validate))
    );
}

#[test]
fn command_output_is_read_by_its_status() {
    let ok = CommandOutput { success: true, stderr: b"nginx: syntax is ok\n".to_vec() };
    assert_eq!(test_nginx(&ok), Ok(()));
    assert_eq!(reload_nginx(&ok), Ok(()));
    assert_eq!(diagnose(&ok), Ok(()));
    let bad = CommandOutput { success: false, stderr: b"nginx: [emerg] bad\n".to_vec() };
    assert_eq!(test_nginx(&bad), Err("nginx: [emerg] bad\n".to_string()));
    assert_eq!(reload_nginx(&bad), Err("nginx: [emerg] bad\n".to_string()));
    let silent = CommandOutput { success: false, stderr: Vec::new() };
    assert_eq!(diagnose(&silent), Err(String::new()));
}

#[test]
fn diagnostic_text_replaces_invalid_bytes() {
    let bad = CommandOutput { success: false, stderr: vec![b'a', 0xff, b'b'] };
    assert_eq!(test_nginx(&bad), Err("a\u{fffd}b".to_string()));
    let utf8 = CommandOutput { success: false, stderr: "café ü".as_bytes().to_vec() };
    assert_eq!(test_nginx(&utf8), Err("café ü".to_string()));
}

/// Runs a batch: `changes[i]` is how the change of the i-th site ends.
fn run_batch(
    changes: Vec<Result<(), ActivationError>>,
    validate: Result<(), String>,
    reload: Result<(), String>,
) -> (BatchOutcome, Vec<BatchAction>) {
    let mut asked = Vec::new();
    let mut step = batch(changes.len());
    loop {
        match step {
            BatchStep::Finished(outcome) => return (outcome, asked),
            BatchStep::Next(state, action) => {
                asked.push(action);
                let event = match action {
                    BatchAction::Change(i) => BatchEvent::Changed(match &changes[i] {
                        Ok(()) => Ok(()),
                        Err(ActivationError::IoFailure(t)) => Err(ActivationError::IoFailure(t.clone())),
                        Err(ActivationError::RetryExhausted) => Err(ActivationError::RetryExhausted),
                        Err(ActivationError::OutOfTurn) => Err(ActivationError::OutOfTurn),
                    }),
                    BatchAction::Apply(ApplyAction::Validate) => BatchEvent::Ran(validate.clone()),
                    BatchAction::Apply(ApplyAction::Reload) => BatchEvent::Ran(reload.clone()),
                };
                step = state.resume(event);
            }
        }
    }
}

#[test]
fn batch_applies_once_after_the_last_change() {
    let (outcome, asked) = run_batch(vec![Ok(()), Ok(()), Ok(())], Ok(()), Ok(()));
    assert_eq!(outcome, BatchOutcome::Settled(ApplyOutcome::Applied));
    assert_eq!(
        asked,
        vec![
            BatchAction::Change(0),
            BatchAction::Change(1),
            BatchAction::Change(2),
            BatchAction::Apply(ApplyAction::Validate),
            BatchAction::Apply(ApplyAction::Reload),
        ]
    );
}

#[test]
fn batch_of_nothing_leaves_the_server_alone() {
    let (outcome, asked) = run_batch(vec![], Ok(()), Ok(()));
    assert_eq!(outcome, BatchOutcome::NothingChosen);
    assert!(asked.is_empty());
}

#[test]
fn batch_stops_at_the_first_failed_change() {
    let failure = ActivationError::IoFailure("Permission denied (os error 13)".to_string());
    let (outcome, asked) = run_batch(
        vec![Ok(()), Err(ActivationError::IoFailure("Permission denied (os error 13)".to_string())), Ok(())],
        Ok(()),
        Ok(()),
    );
    assert_eq!(outcome, BatchOutcome::ChangeFailed(1, failure));
    assert_eq!(asked, vec![BatchAction::Change(0), BatchAction::Change(1)]);
}

#[test]
fn batch_does_not_undo_after_failed_validation() {
    let (outcome, asked) = run_batch(vec![Ok(()), Ok(())], Err("bad".to_string()), Ok(()));
    assert_eq!(outcome, BatchOutcome::Settled(ApplyOutcome::ValidationFailed("bad".to_string())));
    assert_eq!(
        asked,
        vec![BatchAction::Change(0), BatchAction::Change(1), BatchAction::Apply(ApplyAction::Validate)]
    );
    let (outcome, _) = run_batch(vec![Ok(())], Ok(()), Err("no".to_string()));
    assert_eq!(outcome, BatchOutcome::Settled(ApplyOutcome::ReloadFailed("no".to_string())));
}

#[test]
fn batch_refuses_events_out_of_turn() {
    assert_eq!(
        BatchState::Changing { next: 0, chosen: 2 }.resume(BatchEvent::Ran(Ok(()))),
        BatchStep::Finished(BatchOutcome::OutOfTurn)
    );
    assert_eq!(
        BatchState::Applying(ApplyState::Validating).resume(BatchEvent::Changed(Ok(()))),
        BatchStep::Finished(BatchOutcome::OutOfTurn)
    );
    assert_eq!(
        BatchState::Changing { next: usize::MAX, chosen: 0 }.resume(BatchEvent::Changed(Ok(()))),
        BatchStep::Next(BatchState::Applying(ApplyState::Validating), BatchAction::Apply(ApplyAction::Validate))
    );
}
