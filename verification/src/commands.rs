//! What an action of the linking protocols means on the filesystem, once the
//! configured directories and the site's name are known.

use vstd::prelude::*;
use crate::activation::{FsAction, SiteDir};
use crate::paths::{join_path, path_join};
use crate::settings::{Paths, PathsView};

verus! {

/// One call on the filesystem, with the paths written out.
#[derive(Debug, PartialEq, Eq)]
pub enum FsCommand {
    /// Find out whether the path leads to anything, following symlinks.
    Exists(String),
    /// Find out whether an entry stands at the path, be it a symlink that
    /// leads nowhere.
    Present(String),
    /// Create the directory and the directories above it.
    CreateDirAll(String),
    /// Create the symlink `link`, pointing to `target`.
    Symlink { target: String, link: String },
    /// Remove the file or symlink at the path.
    RemoveFile(String),
}

/// What an `FsCommand` stands for in contracts.
pub enum FsCommandView {
    Exists(Seq<char>),
    Present(Seq<char>),
    CreateDirAll(Seq<char>),
    Symlink { target: Seq<char>, link: Seq<char> },
    RemoveFile(Seq<char>),
}

impl View for FsCommand {
    type V = FsCommandView;

    open spec fn view(&self) -> FsCommandView {
        match self {
            FsCommand::Exists(p) => FsCommandView::Exists(p@),
            FsCommand::Present(p) => FsCommandView::Present(p@),
            FsCommand::CreateDirAll(p) => FsCommandView::CreateDirAll(p@),
            FsCommand::Symlink { target, link } => FsCommandView::Symlink {
                target: target@,
                link: link@,
            },
            FsCommand::RemoveFile(p) => FsCommandView::RemoveFile(p@),
        }
    }
}

/// The configured path of the directory `dir`.
pub open spec fn dir_path(paths: PathsView, dir: SiteDir) -> Seq<char> {
    match dir {
        SiteDir::Available => paths.sites_available,
        SiteDir::Enabled => paths.sites_enabled,
    }
}

/// The call that `action` stands for, for the site `name` under `paths`. A
/// site's file is looked for through symlinks; its entry in the enabled
/// directory counts as soon as it is there. The symlink is made in the
/// enabled directory and points to the site's file in the available one.
pub open spec fn command_of(action: FsAction, paths: PathsView, name: Seq<char>) -> FsCommandView {
    match action {
        FsAction::ProbeDir(dir) => FsCommandView::Exists(dir_path(paths, dir)),
        FsAction::CreateDir(dir) => FsCommandView::CreateDirAll(dir_path(paths, dir)),
        FsAction::ProbeSite(SiteDir::Available) => FsCommandView::Exists(
            path_join(paths.sites_available, name),
        ),
        FsAction::ProbeSite(SiteDir::Enabled) => FsCommandView::Present(
            path_join(paths.sites_enabled, name),
        ),
        FsAction::Link => FsCommandView::Symlink {
            target: path_join(paths.sites_available, name),
            link: path_join(paths.sites_enabled, name),
        },
        FsAction::Unlink => FsCommandView::RemoveFile(path_join(paths.sites_enabled, name)),
    }
}

/// Writes out the call that `action` stands for, for the site `name` under
/// `paths`.
pub fn command(action: FsAction, paths: &Paths, name: &str) -> (c: FsCommand)
    ensures
        c@ == command_of(action, paths@, name@),
{
    match action {
        FsAction::ProbeDir(SiteDir::Available) => FsCommand::Exists(paths.sites_available.clone()),
        FsAction::ProbeDir(SiteDir::Enabled) => FsCommand::Exists(paths.sites_enabled.clone()),
        FsAction::CreateDir(SiteDir::Available) => FsCommand::CreateDirAll(
            paths.sites_available.clone(),
        ),
        FsAction::CreateDir(SiteDir::Enabled) => FsCommand::CreateDirAll(
            paths.sites_enabled.clone(),
        ),
        FsAction::ProbeSite(SiteDir::Available) => FsCommand::Exists(
            join_path(paths.sites_available.as_str(), name),
        ),
        FsAction::ProbeSite(SiteDir::Enabled) => FsCommand::Present(
            join_path(paths.sites_enabled.as_str(), name),
        ),
        FsAction::Link => FsCommand::Symlink {
            target: join_path(paths.sites_available.as_str(), name),
            link: join_path(paths.sites_enabled.as_str(), name),
        },
        FsAction::Unlink => FsCommand::RemoveFile(join_path(paths.sites_enabled.as_str(), name)),
    }
}

} // verus!
