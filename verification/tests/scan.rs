use ngsite::activation::{FsEvent, IoFault};
use ngsite::scan::{scan, ScanAction, ScanError, ScanEvent, ScanState, ScanStep};
use ngsite::sites::{walk_folder, SiteSet, WalkEntry};

fn found(name: &str, is_symlink: bool) -> WalkEntry {
    WalkEntry {
        file_name: name.to_string(),
        file_path: format!("/d/{}", name),
        is_symlink,
        is_dir: false,
    }
}

/// Runs a scan of a directory that exists or not and holds `entries`.
fn run(exists: bool, entries: Vec<WalkEntry>) -> (Result<SiteSet, ScanError>, Vec<ScanAction>) {
    let mut asked = Vec::new();
    let mut walked = Some(entries);
    let mut step = scan();
    loop {
        match step {
            ScanStep::Finished(result) => return (result, asked),
            ScanStep::Next(state, action) => {
                asked.push(action);
                let event = match action {
                    ScanAction::ProbeDir => ScanEvent::Fs(FsEvent::Exists(exists)),
                    ScanAction::CreateDir => ScanEvent::Fs(FsEvent::Done),
                    ScanAction::Walk => ScanEvent::Walked(Ok(walked.take().unwrap())),
                };
                step = state.resume(event);
            }
        }
    }
}

#[test]
fn scan_walks_a_directory_that_exists() {
    let entries = vec![found("b", true), found("a", false)];
    let (result, asked) = run(true, vec![found("b", true), found("a", false)]);
    assert_eq!(result, Ok(walk_folder(&entries)));
    assert_eq!(asked, vec![ScanAction::ProbeDir, ScanAction::Walk]);
    let set = result.unwrap();
    assert_eq!(set.len(), 2);
    assert_eq!(set.get("b").map(|d| d.is_symlink), Some(true));
}

#[test]
fn scan_creates_a_missing_directory() {
    let (result, asked) = run(false, Vec::new());
    assert_eq!(result, Ok(SiteSet::new()));
    assert_eq!(asked, vec![ScanAction::ProbeDir, ScanAction::CreateDir, ScanAction::Walk]);
}

#[test]
fn scan_twice_gives_equal_sets() {
    let (first, _) = run(true, vec![found("x", false), found("y", true)]);
    let (second, _) = run(true, vec![found("y", true), found("x", false)]);
    assert_eq!(first, second);
}

#[test]
fn scan_reports_failures() {
    let fault = IoFault { already_exists: false, message: "Permission denied (os error 13)".to_string() };
    assert_eq!(
        ScanState::Creating.resume(ScanEvent::Fs(FsEvent::Failed(fault))),
        ScanStep::Finished(Err(ScanError::IoFailure("Permission denied (os error 13)".to_string())))
    );
    assert_eq!(
        ScanState::Walking.resume(ScanEvent::Walked(Err("loop found".to_string()))),
        ScanStep::Finished(Err(ScanError::IoFailure("loop found".to_string())))
    );
}

#[test]
fn scan_refuses_events_out_of_turn() {
    assert_eq!(
        ScanState::Probing.resume(ScanEvent::Walked(Ok(Vec::new()))),
        ScanStep::Finished(Err(ScanError::OutOfTurn))
    );
    assert_eq!(
        ScanState::Walking.resume(ScanEvent::Fs(FsEvent::Exists(true))),
        ScanStep::Finished(Err(ScanError::OutOfTurn))
    );
    assert_eq!(
        ScanState::Probing.resume(ScanEvent::Fs(FsEvent::Done)),
        ScanStep::Finished(Err(ScanError::OutOfTurn))
    );
    assert_eq!(
        ScanState::Creating.resume(ScanEvent::Fs(FsEvent::Exists(false))),
        ScanStep::Finished(Err(ScanError::OutOfTurn))
    );
    assert_eq!(scan(), ScanStep::Next(ScanState::Probing, ScanAction::ProbeDir));
}
