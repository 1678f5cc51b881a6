use ngsite::apply::CommandOutput;
use ngsite::edit::{edit_nginx_site, EditAction, EditEvent, EditState, EditStep, Edited};
use ngsite::logs::{view_log_file, LogAction, LogEvent, LogState, LogStep, Viewed};

fn ignore() -> Vec<String> {
    vec!["favicon".to_string()]
}

#[test]
fn plain_log_is_read_and_paged() {
    assert_eq!(view_log_file(), LogStep::Next(LogState::Probing, LogAction::Probe));
    assert_eq!(
        LogState::Probing.resume(LogEvent::Exists(true), &ignore()),
        LogStep::Next(LogState::Testing, LogAction::TestGzip)
    );
    let said = CommandOutput { success: false, stderr: b"gzip: access.log: NOT in gzip format".to_vec() };
    assert_eq!(
        LogState::Testing.resume(LogEvent::Tested(said), &ignore()),
        LogStep::Next(LogState::Reading, LogAction::Read { gzip: false })
    );
    assert_eq!(
        LogState::Reading.resume(LogEvent::Read("a\nGET /favicon.ico\nb\n".to_string()), &ignore()),
        LogStep::Next(LogState::Paging, LogAction::Page(vec!["b".to_string(), "a".to_string()]))
    );
    assert_eq!(LogState::Paging.resume(LogEvent::Paged, &ignore()), LogStep::Finished(Viewed::Shown));
}

#[test]
fn packed_log_is_read_through_gzip() {
    let said = CommandOutput { success: true, stderr: b"access.log.1.gz:\t OK".to_vec() };
    assert_eq!(
        LogState::Testing.resume(LogEvent::Tested(said), &ignore()),
        LogStep::Next(LogState::Reading, LogAction::Read { gzip: true })
    );
}

#[test]
fn missing_log_is_passed_over() {
    assert_eq!(
        LogState::Probing.resume(LogEvent::Exists(false), &ignore()),
        LogStep::Finished(Viewed::NotFound)
    );
}

#[test]
fn log_failures_end_the_viewing() {
    assert_eq!(
        LogState::Reading.resume(LogEvent::Failed("unexpected end of file".to_string()), &ignore()),
        LogStep::Finished(Viewed::Failed("unexpected end of file".to_string()))
    );
    assert_eq!(
        LogState::Probing.resume(LogEvent::Paged, &ignore()),
        LogStep::Finished(Viewed::OutOfTurn)
    );
    assert_eq!(
        LogState::Paging.resume(LogEvent::Read(String::new()), &ignore()),
        LogStep::Finished(Viewed::OutOfTurn)
    );
    assert_eq!(
        LogState::Reading.resume(LogEvent::Exists(true), &ignore()),
        LogStep::Finished(Viewed::OutOfTurn)
    );
    let said = CommandOutput { success: true, stderr: Vec::new() };
    assert_eq!(
        LogState::Paging.resume(LogEvent::Tested(said), &ignore()),
        LogStep::Finished(Viewed::OutOfTurn)
    );
}

#[test]
fn edit_runs_the_editor_on_a_file_that_exists() {
    assert_eq!(edit_nginx_site(), EditStep::Next(EditState::Probing, EditAction::Probe));
    assert_eq!(
        EditState::Probing.resume(EditEvent::Exists(true)),
        EditStep::Next(EditState::Editing, EditAction::Edit)
    );
    assert_eq!(
        EditState::Editing.resume(EditEvent::Ended { success: true, status: "exit status: 0".to_string() }),
        EditStep::Finished(Edited::Done)
    );
}

#[test]
fn edit_of_a_missing_file_is_passed_over() {
    assert_eq!(EditState::Probing.resume(EditEvent::Exists(false)), EditStep::Finished(Edited::NotFound));
}

#[test]
fn edit_reports_the_status_of_a_failed_editor() {
    assert_eq!(
        EditState::Editing.resume(EditEvent::Ended { success: false, status: "exit status: 1".to_string() }),
        EditStep::Finished(Edited::Failed("exit status: 1".to_string()))
    );
    assert_eq!(
        EditState::Editing.resume(EditEvent::Failed("vi not found".to_string())),
        EditStep::Finished(Edited::Failed("vi not found".to_string()))
    );
    assert_eq!(
        EditState::Editing.resume(EditEvent::Exists(true)),
        EditStep::Finished(Edited::OutOfTurn)
    );
    assert_eq!(
        EditState::Probing.resume(EditEvent::Ended { success: true, status: String::new() }),
        EditStep::Finished(Edited::OutOfTurn)
    );
}
