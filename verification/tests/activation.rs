use ngsite::activation::{
    rm_symlink, sym_link, Activated, ActivationError, Deactivated, FsAction, FsEvent, IoFault,
    LinkState, LinkStep, SiteDir, UnlinkState, UnlinkStep, MAX_LINK_ATTEMPTS,
};
use ngsite::commands::{command, FsCommand};
use ngsite::settings::Paths;
use std::collections::BTreeMap;

/// What stands under a name in the enabled directory of the stand-in.
#[derive(Clone, Debug, PartialEq, Eq)]
enum Slot {
    File,
    Link(String),
}

/// A stand-in for the two directories.
#[derive(Clone, Debug, PartialEq, Eq)]
struct Dirs {
    available_dir: bool,
    enabled_dir: bool,
    available: Vec<String>,
    enabled: BTreeMap<String, Slot>,
    /// Names whose entry in the enabled directory cannot be removed.
    stuck: Vec<String>,
    /// Names whose entry comes back after each removal.
    returning: Vec<String>,
    log: Vec<FsAction>,
}

fn dirs(available: &[&str], enabled: &[(&str, Slot)]) -> Dirs {
    Dirs {
        available_dir: true,
        enabled_dir: true,
        available: available.iter().map(|s| s.to_string()).collect(),
        enabled: enabled.iter().map(|(n, s)| (n.to_string(), s.clone())).collect(),
        stuck: Vec::new(),
        returning: Vec::new(),
        log: Vec::new(),
    }
}

fn refused(already_exists: bool, message: &str) -> FsEvent {
    FsEvent::Failed(IoFault { already_exists, message: message.to_string() })
}

fn respond(d: &mut Dirs, name: &str, action: FsAction) -> FsEvent {
    d.log.push(action);
    match action {
        FsAction::ProbeDir(SiteDir::Available) => FsEvent::Exists(d.available_dir),
        FsAction::ProbeDir(SiteDir::Enabled) => FsEvent::Exists(d.enabled_dir),
        FsAction::CreateDir(SiteDir::Available) => {
            d.available_dir = true;
            FsEvent::Done
        }
        FsAction::CreateDir(SiteDir::Enabled) => {
            d.enabled_dir = true;
            FsEvent::Done
        }
        FsAction::ProbeSite(SiteDir::Available) => FsEvent::Exists(d.available.iter().any(|n| n == name)),
        FsAction::ProbeSite(SiteDir::Enabled) => FsEvent::Exists(d.enabled.contains_key(name)),
        FsAction::Link => {
            if d.enabled.contains_key(name) {
                refused(true, "File exists (os error 17)")
            } else if !d.enabled_dir {
                refused(false, "No such file or directory (os error 2)")
            } else {
                d.enabled.insert(name.to_string(), Slot::Link(format!("available/{}", name)));
                FsEvent::Done
            }
        }
        FsAction::Unlink => {
            if d.stuck.iter().any(|n| n == name) {
                refused(false, "Permission denied (os error 13)")
            } else if d.enabled.contains_key(name) {
                if !d.returning.iter().any(|n| n == name) {
                    d.enabled.remove(name);
                }
                FsEvent::Done
            } else {
                refused(false, "No such file or directory (os error 2)")
            }
        }
    }
}

fn activate(d: &mut Dirs, name: &str) -> Result<Activated, ActivationError> {
    let mut step = sym_link();
    loop {
        match step {
            LinkStep::Finished(result) => return result,
            LinkStep::Next(state, action) => {
                let event = respond(d, name, action);
                step = state.resume(event);
            }
        }
    }
}

fn deactivate(d: &mut Dirs, name: &str) -> Result<Deactivated, ActivationError> {
    let mut step = rm_symlink();
    loop {
        match step {
            UnlinkStep::Finished(result) => return result,
            UnlinkStep::Next(state, action) => {
                let event = respond(d, name, action);
                step = state.resume(event);
            }
        }
    }
}

#[test]
fn activate_then_deactivate_leaves_no_entry() {
    let mut d = dirs(&["a.com", "b.com"], &[("b.com", Slot::Link("available/b.com".to_string()))]);
    let before = d.enabled.clone();
    assert_eq!(activate(&mut d, "a.com"), Ok(Activated::Linked));
    assert_eq!(d.enabled.get("a.com"), Some(&Slot::Link("available/a.com".to_string())));
    assert_eq!(deactivate(&mut d, "a.com"), Ok(Deactivated::Removed));
    assert!(!d.enabled.contains_key("a.com"));
    assert_eq!(d.enabled, before);
    assert_eq!(d.available, vec!["a.com".to_string(), "b.com".to_string()]);
}

#[test]
fn activate_of_a_missing_site_changes_nothing() {
    let mut d = dirs(&["a.com"], &[("a.com", Slot::Link("available/a.com".to_string()))]);
    let before = d.enabled.clone();
    assert_eq!(activate(&mut d, "ghost.com"), Ok(Activated::NotFound));
    assert_eq!(d.enabled, before);
    assert!(!d.log.contains(&FsAction::Link));
    assert!(!d.log.contains(&FsAction::Unlink));
}

#[test]
fn activate_replaces_a_stale_symlink() {
    let mut d = dirs(&["a.com"], &[("a.com", Slot::Link("/elsewhere/old".to_string()))]);
    assert_eq!(activate(&mut d, "a.com"), Ok(Activated::Linked));
    assert_eq!(d.enabled.get("a.com"), Some(&Slot::Link("available/a.com".to_string())));
    assert_eq!(
        d.log,
        vec![
            FsAction::ProbeDir(SiteDir::Enabled),
            FsAction::ProbeDir(SiteDir::Available),
            FsAction::ProbeSite(SiteDir::Available),
            FsAction::Link,
            FsAction::Unlink,
            FsAction::Link,
        ]
    );
}

#[test]
fn activate_replaces_a_plain_file_in_the_way() {
    let mut d = dirs(&["a.com"], &[("a.com", Slot::File)]);
    assert_eq!(activate(&mut d, "a.com"), Ok(Activated::Linked));
    assert_eq!(d.enabled.get("a.com"), Some(&Slot::Link("available/a.com".to_string())));
}

#[test]
fn activate_creates_missing_directories() {
    let mut d = dirs(&[], &[]);
    d.available_dir = false;
    d.enabled_dir = false;
    assert_eq!(activate(&mut d, "a.com"), Ok(Activated::NotFound));
    assert!(d.available_dir && d.enabled_dir);
    assert_eq!(
        d.log,
        vec![
            FsAction::ProbeDir(SiteDir::Enabled),
            FsAction::CreateDir(SiteDir::Enabled),
            FsAction::ProbeDir(SiteDir::Available),
            FsAction::CreateDir(SiteDir::Available),
            FsAction::ProbeSite(SiteDir::Available),
        ]
    );
}

#[test]
fn activate_reports_a_failed_removal() {
    let mut d = dirs(&["a.com"], &[("a.com", Slot::File)]);
    d.stuck.push("a.com".to_string());
    assert_eq!(
        activate(&mut d, "a.com"),
        Err(ActivationError::IoFailure("Permission denied (os error 13)".to_string()))
    );
    assert_eq!(d.enabled.get("a.com"), Some(&Slot::File));
}

#[test]
fn activate_gives_up_when_the_entry_keeps_coming_back() {
    let mut d = dirs(&["a.com"], &[("a.com", Slot::File)]);
    d.returning.push("a.com".to_string());
    assert_eq!(activate(&mut d, "a.com"), Err(ActivationError::RetryExhausted));
    let links = d.log.iter().filter(|a| **a == FsAction::Link).count();
    let unlinks = d.log.iter().filter(|a| **a == FsAction::Unlink).count();
    assert_eq!(links, MAX_LINK_ATTEMPTS as usize);
    assert_eq!(unlinks, MAX_LINK_ATTEMPTS as usize - 1);
    assert_eq!(MAX_LINK_ATTEMPTS, 8);
}

#[test]
fn link_failure_other_than_collision_is_not_retried() {
    let step = LinkState::Linking(1).resume(refused(false, "Read-only file system (os error 30)"));
    assert_eq!(
        step,
        LinkStep::Finished(Err(ActivationError::IoFailure(
            "Read-only file system (os error 30)".to_string()
        )))
    );
}

#[test]
fn failed_directory_creation_ends_the_activation() {
    let step = LinkState::CreatingEnabledDir.resume(refused(false, "denied"));
    assert_eq!(step, LinkStep::Finished(Err(ActivationError::IoFailure("denied".to_string()))));
    let step = LinkState::CreatingAvailableDir.resume(refused(true, "exists"));
    assert_eq!(step, LinkStep::Finished(Err(ActivationError::IoFailure("exists".to_string()))));
}

#[test]
fn link_steps_follow_the_table() {
    assert_eq!(sym_link(), LinkStep::Next(LinkState::ProbingEnabledDir, FsAction::ProbeDir(SiteDir::Enabled)));
    assert_eq!(
        LinkState::ProbingSite.resume(FsEvent::Exists(true)),
        LinkStep::Next(LinkState::Linking(1), FsAction::Link)
    );
    assert_eq!(
        LinkState::Linking(3).resume(refused(true, "exists")),
        LinkStep::Next(LinkState::Clearing(3), FsAction::Unlink)
    );
    assert_eq!(
        LinkState::Clearing(3).resume(FsEvent::Done),
        LinkStep::Next(LinkState::Linking(4), FsAction::Link)
    );
    assert_eq!(
        LinkState::Linking(MAX_LINK_ATTEMPTS).resume(refused(true, "exists")),
        LinkStep::Finished(Err(ActivationError::RetryExhausted))
    );
    assert_eq!(
        LinkState::Linking(u32::MAX).resume(FsEvent::Done),
        LinkStep::Finished(Ok(Activated::Linked))
    );
    assert_eq!(
        LinkState::Clearing(u32::MAX).resume(FsEvent::Done),
        LinkStep::Finished(Err(ActivationError::RetryExhausted))
    );
}

#[test]
fn events_out_of_turn_are_refused() {
    assert_eq!(
        LinkState::ProbingEnabledDir.resume(FsEvent::Done),
        LinkStep::Finished(Err(ActivationError::OutOfTurn))
    );
    assert_eq!(
        LinkState::Linking(1).resume(FsEvent::Exists(true)),
        LinkStep::Finished(Err(ActivationError::OutOfTurn))
    );
    assert_eq!(
        UnlinkState::Removing.resume(FsEvent::Exists(true)),
        UnlinkStep::Finished(Err(ActivationError::OutOfTurn))
    );
    assert_eq!(
        UnlinkState::ProbingSite.resume(FsEvent::Done),
        UnlinkStep::Finished(Err(ActivationError::OutOfTurn))
    );
}

#[test]
fn deactivate_of_an_absent_entry_is_no_failure() {
    let mut d = dirs(&["a.com"], &[]);
    assert_eq!(deactivate(&mut d, "a.com"), Ok(Deactivated::Absent));
    assert_eq!(d.log, vec![FsAction::ProbeSite(SiteDir::Enabled)]);
    assert_eq!(d.available, vec!["a.com".to_string()]);
}

#[test]
fn deactivate_reports_a_failed_removal() {
    let mut d = dirs(&["a.com"], &[("a.com", Slot::Link("available/a.com".to_string()))]);
    d.stuck.push("a.com".to_string());
    assert_eq!(
        deactivate(&mut d, "a.com"),
        Err(ActivationError::IoFailure("Permission denied (os error 13)".to_string()))
    );
    assert_eq!(rm_symlink(), UnlinkStep::Next(UnlinkState::ProbingSite, FsAction::ProbeSite(SiteDir::Enabled)));
}

fn paths() -> Paths {
    Paths {
        nginx: "/etc/nginx".to_string(),
        sites_available: "/etc/nginx/sites-available".to_string(),
        sites_enabled: "/etc/nginx/sites-enabled".to_string(),
        logs: "/var/log/nginx".to_string(),
    }
}

#[test]
fn commands_carry_the_joined_paths() {
    let p = paths();
    assert_eq!(
        command(FsAction::ProbeDir(SiteDir::Enabled), &p, "a.com"),
        FsCommand::Exists("/etc/nginx/sites-enabled".to_string())
    );
    assert_eq!(
        command(FsAction::ProbeDir(SiteDir::Available), &p, "a.com"),
        FsCommand::Exists("/etc/nginx/sites-available".to_string())
    );
    assert_eq!(
        command(FsAction::CreateDir(SiteDir::Enabled), &p, "a.com"),
        FsCommand::CreateDirAll("/etc/nginx/sites-enabled".to_string())
    );
    assert_eq!(
        command(FsAction::CreateDir(SiteDir::Available), &p, "a.com"),
        FsCommand::CreateDirAll("/etc/nginx/sites-available".to_string())
    );
    assert_eq!(
        command(FsAction::ProbeSite(SiteDir::Available), &p, "a.com"),
        FsCommand::Exists("/etc/nginx/sites-available/a.com".to_string())
    );
    assert_eq!(
        command(FsAction::ProbeSite(SiteDir::Enabled), &p, "a.com"),
        FsCommand::Present("/etc/nginx/sites-enabled/a.com".to_string())
    );
    assert_eq!(
        command(FsAction::Link, &p, "a.com"),
        FsCommand::Symlink {
            target: "/etc/nginx/sites-available/a.com".to_string(),
            link: "/etc/nginx/sites-enabled/a.com".to_string(),
        }
    );
    assert_eq!(
        command(FsAction::Unlink, &p, "a.com"),
        FsCommand::RemoveFile("/etc/nginx/sites-enabled/a.com".to_string())
    );
}
