//! A model of the two site directories on a filesystem that does what it is
//! asked, and what the linking protocols achieve when they run against it.

use vstd::prelude::*;
use crate::candidates::{disable_candidates_of, enable_candidates_of};
use crate::sites::FileDataView;
use crate::activation::{
    link_budget, link_next, link_start, unlink_next, unlink_start, Activated, Deactivated, FsAction,
    FsEvent, IoFault, LinkState, LinkStep, SiteDir, UnlinkStep,
};

verus! {

/// Where a symlink points.
pub enum Target {
    /// To the file of the named site in the available directory.
    Site(Seq<char>),
    /// Anywhere else.
    Elsewhere,
}

/// What stands under a name in the enabled directory.
pub enum Entry {
    File,
    Symlink(Target),
}

/// The two directories.
pub struct World {
    /// Whether the available directory exists.
    pub available_dir: bool,
    /// Whether the enabled directory exists.
    pub enabled_dir: bool,
    /// The names of the sites that have a file in the available directory.
    pub available: Set<Seq<char>>,
    /// The entries of the enabled directory.
    pub enabled: Map<Seq<char>, Entry>,
    /// The words in which this filesystem refuses what it cannot do.
    pub refusal: String,
}

impl World {
    /// The failure reported when an action cannot be done.
    pub open spec fn refuses(self, already_exists: bool) -> FsEvent {
        FsEvent::Failed(IoFault { already_exists, message: self.refusal })
    }

    /// The world after `action` for the site `name`, and what is reported of it.
    pub open spec fn respond(self, name: Seq<char>, action: FsAction) -> (World, FsEvent) {
        match action {
            FsAction::ProbeDir(SiteDir::Available) => (self, FsEvent::Exists(self.available_dir)),
            FsAction::ProbeDir(SiteDir::Enabled) => (self, FsEvent::Exists(self.enabled_dir)),
            FsAction::CreateDir(SiteDir::Available) => (
                World { available_dir: true, ..self },
                FsEvent::Done,
            ),
            FsAction::CreateDir(SiteDir::Enabled) => (
                World { enabled_dir: true, ..self },
                FsEvent::Done,
            ),
            FsAction::ProbeSite(SiteDir::Available) => (
                self,
                FsEvent::Exists(self.available.contains(name)),
            ),
            FsAction::ProbeSite(SiteDir::Enabled) => (
                self,
                FsEvent::Exists(self.enabled.contains_key(name)),
            ),
            FsAction::Link => if self.enabled.contains_key(name) {
                (self, self.refuses(true))
            } else if !self.enabled_dir {
                (self, self.refuses(false))
            } else {
                (
                    World {
                        enabled: self.enabled.insert(name, Entry::Symlink(Target::Site(name))),
                        ..self
                    },
                    FsEvent::Done,
                )
            },
            FsAction::Unlink => if self.enabled.contains_key(name) {
                (World { enabled: self.enabled.remove(name), ..self }, FsEvent::Done)
            } else {
                (self, self.refuses(false))
            },
        }
    }

    /// The world in which an activation of `name` leaves this one, and the
    /// step at which it stops, when it starts at `step` and asks for `fuel`
    /// actions at most.
    pub open spec fn link_run(self, name: Seq<char>, step: LinkStep, fuel: nat) -> (World, LinkStep)
        decreases fuel,
    {
        match step {
            LinkStep::Next(state, action) if fuel > 0 => {
                let (next, event) = self.respond(name, action);
                next.link_run(name, link_next(state, event), (fuel - 1) as nat)
            },
            _ => (self, step),
        }
    }

    /// The same for a deactivation.
    pub open spec fn unlink_run(self, name: Seq<char>, step: UnlinkStep, fuel: nat) -> (
        World,
        UnlinkStep,
    )
        decreases fuel,
    {
        match step {
            UnlinkStep::Next(state, action) if fuel > 0 => {
                let (next, event) = self.respond(name, action);
                next.unlink_run(name, unlink_next(state, event), (fuel - 1) as nat)
            },
            _ => (self, step),
        }
    }

    /// The world after the site `name` was activated, and how that ended.
    pub open spec fn activate(self, name: Seq<char>) -> (World, LinkStep) {
        self.link_run(name, link_start(), link_budget(LinkState::ProbingEnabledDir) + 1)
    }

    /// The world after the site `name` was deactivated, and how that ended.
    pub open spec fn deactivate(self, name: Seq<char>) -> (World, UnlinkStep) {
        self.unlink_run(name, unlink_start(), 2)
    }

    /// The world with both directories in place.
    pub open spec fn with_dirs(self) -> World {
        World { available_dir: true, enabled_dir: true, ..self }
    }
}

/// Whether every symlink of the enabled directory that points to a site's
/// file stands under that site's name.
pub open spec fn well_linked(w: World) -> bool {
    forall|name: Seq<char>| #[trigger]
        w.enabled.contains_key(name) ==> (w.enabled[name] matches Entry::Symlink(Target::Site(site))
            ==> site == name)
}

/// Neither an activation nor a deactivation, of whatever site, leaves a
/// symlink to a site's file under another name than the site's.
pub proof fn lemma_stays_well_linked(w: World, name: Seq<char>)
    requires
        well_linked(w),
    ensures
        well_linked(w.activate(name).0),
        well_linked(w.deactivate(name).0),
{
    lemma_deactivate_removes(w, name);
    if w.available.contains(name) {
        lemma_activate_links(w, name);
    } else {
        lemma_activate_missing_site(w, name);
    }
}

/// Activating a site that has a file in the available directory leaves a
/// symlink to that file under its name in the enabled directory, whatever
/// stood there before, and changes no other entry.
pub proof fn lemma_activate_links(w: World, name: Seq<char>)
    requires
        w.available.contains(name),
    ensures
        w.activate(name).1 == LinkStep::Finished(Ok(Activated::Linked)),
        w.activate(name).0 == (World {
            enabled: w.enabled.insert(name, Entry::Symlink(Target::Site(name))),
            ..w.with_dirs()
        }),
{
    reveal_with_fuel(World::link_run, 9);
    if w.enabled.contains_key(name) {
        assert(w.enabled.remove(name).insert(name, Entry::Symlink(Target::Site(name)))
            =~= w.enabled.insert(name, Entry::Symlink(Target::Site(name))));
    }
}

/// Activating a site that has no file in the available directory is no
/// failure and leaves the entries of both directories as they were.
pub proof fn lemma_activate_missing_site(w: World, name: Seq<char>)
    requires
        !w.available.contains(name),
    ensures
        w.activate(name).1 == LinkStep::Finished(Ok(Activated::NotFound)),
        w.activate(name).0 == w.with_dirs(),
        w.activate(name).0.enabled == w.enabled,
        w.activate(name).0.available == w.available,
{
    reveal_with_fuel(World::link_run, 6);
}

/// Deactivating a site removes its entry from the enabled directory, where
/// there is one, and touches nothing else.
pub proof fn lemma_deactivate_removes(w: World, name: Seq<char>)
    ensures
        w.deactivate(name).0 == (World { enabled: w.enabled.remove(name), ..w }),
        w.deactivate(name).1 == UnlinkStep::Finished(
            Ok(
                if w.enabled.contains_key(name) {
                    Deactivated::Removed
                } else {
                    Deactivated::Absent
                },
            ),
        ),
{
    reveal_with_fuel(World::unlink_run, 3);
    if !w.enabled.contains_key(name) {
        assert(w.enabled.remove(name) =~= w.enabled);
    }
}

/// After a site was activated and then deactivated, the enabled directory has
/// no entry under its name, and its other entries are as before.
pub proof fn lemma_activate_then_deactivate(w: World, name: Seq<char>)
    requires
        w.available.contains(name),
    ensures
        ({
            let linked = w.activate(name).0;
            let after = linked.deactivate(name).0;
            &&& linked.deactivate(name).1 == UnlinkStep::Finished(Ok(Deactivated::Removed))
            &&& !after.enabled.contains_key(name)
            &&& after.enabled == w.enabled.remove(name)
            &&& after.available == w.available
        }),
{
    lemma_activate_links(w, name);
    let linked = w.activate(name).0;
    lemma_deactivate_removes(linked, name);
    assert(linked.enabled.remove(name) =~= w.enabled.remove(name));
}

/// Whether `scan` is what a scan of the available directory of `w` yields: an
/// entry for each site, under its name.
pub open spec fn scans_available(scan: Map<Seq<char>, FileDataView>, w: World) -> bool {
    &&& scan.dom() == w.available
    &&& forall|k: Seq<char>| #[trigger] scan.contains_key(k) ==> scan[k].file_name == k
}

/// Whether `scan` is what a scan of the enabled directory of `w` yields: an
/// entry for each entry, under its name and tagged as a symlink if it is one.
pub open spec fn scans_enabled(scan: Map<Seq<char>, FileDataView>, w: World) -> bool {
    &&& scan.dom() == w.enabled.dom()
    &&& forall|k: Seq<char>| #[trigger]
        scan.contains_key(k) ==> scan[k].file_name == k && scan[k].is_symlink
            == (w.enabled[k] is Symlink)
}

/// A site that was activated is offered for disabling and no more for
/// enabling.
pub proof fn lemma_activated_site_is_offered_for_disabling(
    w: World,
    name: Seq<char>,
    available: Map<Seq<char>, FileDataView>,
    enabled: Map<Seq<char>, FileDataView>,
)
    requires
        w.available.contains(name),
        scans_available(available, w.activate(name).0),
        scans_enabled(enabled, w.activate(name).0),
    ensures
        disable_candidates_of(enabled).contains_key(name),
        !enable_candidates_of(available, enabled).contains_key(name),
{
    lemma_activate_links(w, name);
    assert(w.activate(name).0.enabled.contains_key(name));
    assert(enabled.dom().contains(name));
    assert(available.dom().contains(name));
}

/// A site that was deactivated is offered for enabling and no more for
/// disabling.
pub proof fn lemma_deactivated_site_is_offered_for_enabling(
    w: World,
    name: Seq<char>,
    available: Map<Seq<char>, FileDataView>,
    enabled: Map<Seq<char>, FileDataView>,
)
    requires
        w.available.contains(name),
        scans_available(available, w.deactivate(name).0),
        scans_enabled(enabled, w.deactivate(name).0),
    ensures
        enable_candidates_of(available, enabled).contains_key(name),
        !disable_candidates_of(enabled).contains_key(name),
{
    lemma_deactivate_removes(w, name);
    assert(!w.deactivate(name).0.enabled.dom().contains(name));
    assert(available.dom().contains(name));
}

} // verus!
