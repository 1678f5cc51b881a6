//! The starter files that can be laid down on a fresh host, where each of
//! them goes, and the steps by which one is written without writing over what
//! is there.

use vstd::prelude::*;
use crate::activation::FsEvent;
use crate::paths::{join_path, path_join};

verus! {

/// A starter file: its name, the path it is written to, and what it holds.
#[derive(Debug, PartialEq, Eq)]
pub struct FileMetaData {
    pub file_path: String,
    pub default_file: &'static [u8],
    pub file_name: String,
}

impl FileMetaData {
    /// The file `file_name` in the directory `file_path`, holding
    /// `default_file`.
    pub fn new(file_path: &str, file_name: &str, default_file: &'static [u8]) -> (r: FileMetaData)
        ensures
            r.file_name@ == file_name@,
            r.file_path@ == path_join(file_path@, file_name@),
            r.default_file@ == default_file@,
    {
        FileMetaData {
            file_name: file_name.to_owned(),
            file_path: join_path(file_path, file_name),
            default_file,
        }
    }
}

/// The starter files.
#[derive(Clone, Copy, Debug, PartialEq, Eq, Hash)]
pub enum NgDefaults {
    DefaultServer,
    NginxConf,
    ExampleCom,
    ProxyCom,
    GeneralConf,
    LetsencryptConf,
    ProxyConf,
    SecurityConf,
}

impl NgDefaults {
    /// The directory that the file goes to.
    pub open spec fn directory(self) -> Seq<char> {
        match self {
            NgDefaults::NginxConf => "/etc/nginx"@,
            NgDefaults::DefaultServer | NgDefaults::ExampleCom | NgDefaults::ProxyCom => "/etc/nginx/sites-available"@,
            NgDefaults::GeneralConf | NgDefaults::LetsencryptConf | NgDefaults::ProxyConf | NgDefaults::SecurityConf => "/etc/nginx/nginxconfig.io"@,
        }
    }

    /// The name that the file has unless another is asked for.
    pub open spec fn file_name(self) -> Seq<char> {
        match self {
            NgDefaults::DefaultServer => "default_server"@,
            NgDefaults::NginxConf => "nginx.conf"@,
            NgDefaults::ExampleCom => "example.com"@,
            NgDefaults::ProxyCom => "proxy.com"@,
            NgDefaults::GeneralConf => "general.conf"@,
            NgDefaults::LetsencryptConf => "letsencrypt.conf"@,
            NgDefaults::ProxyConf => "proxy.conf"@,
            NgDefaults::SecurityConf => "security.conf"@,
        }
    }

    /// The words under which the file is offered.
    pub open spec fn words(self) -> Seq<char> {
        match self {
            NgDefaults::DefaultServer => "default server"@,
            _ => self.file_name(),
        }
    }

    /// The file that stands at `index` in the list of offers.
    pub open spec fn at(index: int) -> NgDefaults {
        if index == 0 {
            NgDefaults::DefaultServer
        } else if index == 1 {
            NgDefaults::NginxConf
        } else if index == 2 {
            NgDefaults::ExampleCom
        } else if index == 3 {
            NgDefaults::ProxyCom
        } else if index == 4 {
            NgDefaults::GeneralConf
        } else if index == 5 {
            NgDefaults::LetsencryptConf
        } else if index == 6 {
            NgDefaults::ProxyConf
        } else {
            NgDefaults::SecurityConf
        }
    }

    /// Whether the file is a site, which is written under the name of its
    /// domain.
    pub open spec fn is_site(self) -> bool {
        self == NgDefaults::ExampleCom || self == NgDefaults::ProxyCom
    }

    /// The directory that the file goes to.
    pub fn dir(self) -> (s: &'static str)
        ensures
            s@ == self.directory(),
    {
        match self {
            NgDefaults::NginxConf => "/etc/nginx",
            NgDefaults::DefaultServer | NgDefaults::ExampleCom | NgDefaults::ProxyCom => "/etc/nginx/sites-available",
            NgDefaults::GeneralConf | NgDefaults::LetsencryptConf | NgDefaults::ProxyConf | NgDefaults::SecurityConf => "/etc/nginx/nginxconfig.io",
        }
    }

    /// The name that the file has unless another is asked for.
    pub fn name(self) -> (s: &'static str)
        ensures
            s@ == self.file_name(),
    {
        match self {
            NgDefaults::DefaultServer => "default_server",
            NgDefaults::NginxConf => "nginx.conf",
            NgDefaults::ExampleCom => "example.com",
            NgDefaults::ProxyCom => "proxy.com",
            NgDefaults::GeneralConf => "general.conf",
            NgDefaults::LetsencryptConf => "letsencrypt.conf",
            NgDefaults::ProxyConf => "proxy.conf",
            NgDefaults::SecurityConf => "security.conf",
        }
    }

    /// The words under which the file is offered.
    pub fn label(self) -> (s: &'static str)
        ensures
            s@ == self.words(),
    {
        match self {
            NgDefaults::DefaultServer => "default server",
            _ => self.name(),
        }
    }

    /// The starter files in the order in which they are offered.
    pub fn choices() -> (all: Vec<NgDefaults>)
        ensures
            all@.len() == 8,
            forall|i: int| 0 <= i < 8 ==> #[trigger] all@[i] == NgDefaults::at(i),
    {
        let mut all: Vec<NgDefaults> = Vec::new();
        all.push(NgDefaults::DefaultServer);
        all.push(NgDefaults::NginxConf);
        all.push(NgDefaults::ExampleCom);
        all.push(NgDefaults::ProxyCom);
        all.push(NgDefaults::GeneralConf);
        all.push(NgDefaults::LetsencryptConf);
        all.push(NgDefaults::ProxyConf);
        all.push(NgDefaults::SecurityConf);
        all
    }

    /// Whether the user is asked for a domain name for this file.
    pub fn asks_for_domain(self) -> (r: bool)
        ensures
            r == self.is_site(),
    {
        match self {
            NgDefaults::ExampleCom | NgDefaults::ProxyCom => true,
            _ => false,
        }
    }
}

/// The name under which a starter file is written: the domain given for a
/// site, else the file's own name.
pub open spec fn written_name(kind: NgDefaults, domain: Option<Seq<char>>) -> Seq<char> {
    match domain {
        Some(d) if kind.is_site() => d,
        _ => kind.file_name(),
    }
}

/// Where the starter file `kind` is written and what it holds. A site goes
/// under the domain name given for it, every other file under its own name.
pub fn ng_default(kind: NgDefaults, domain: Option<&str>, default_file: &'static [u8]) -> (r:
    FileMetaData)
    ensures
        r.file_name@ == written_name(kind, crate::resolve::option_text(domain)),
        r.file_path@ == path_join(kind.directory(), r.file_name@),
        r.default_file@ == default_file@,
{
    match domain {
        Some(d) => if kind.asks_for_domain() {
            FileMetaData::new(kind.dir(), d, default_file)
        } else {
            FileMetaData::new(kind.dir(), kind.name(), default_file)
        },
        None => FileMetaData::new(kind.dir(), kind.name(), default_file),
    }
}

/// What the caller is asked to do next for a starter file.
#[derive(Clone, Copy, Debug, PartialEq, Eq)]
pub enum PlaceAction {
    /// Find out whether anything stands at the file's path.
    Probe,
    /// Create the directory that the file goes to, and those above it.
    CreateDir,
    /// Create the file and write what it holds.
    Write,
}

/// Where the placing of a starter file stands: which answer it waits for.
#[derive(Clone, Copy, Debug, PartialEq, Eq)]
pub enum PlaceState {
    Probing,
    CreatingDir,
    Writing,
}

/// How the placing of a starter file ended.
#[derive(Debug, PartialEq, Eq)]
pub enum Placed {
    /// The file was written.
    Written,
    /// Something stood at the path already: it was left as it was, and this
    /// is no failure.
    Kept,
    /// The filesystem refused an action; the text is its own.
    Failed(String),
    /// An event was reported that answers no action asked for.
    OutOfTurn,
}

/// One step of the placing of a starter file.
#[derive(Debug, PartialEq, Eq)]
pub enum PlaceStep {
    /// The caller carries out the action and reports to the state.
    Next(PlaceState, PlaceAction),
    /// The placing is over.
    Finished(Placed),
}

/// The first step: the path is probed.
pub open spec fn place_start() -> PlaceStep {
    PlaceStep::Next(PlaceState::Probing, PlaceAction::Probe)
}

/// The step that follows when `event` is reported in `state`. A file is
/// written only where the probe found nothing at its path, after its
/// directory was created; what is there already is kept.
pub open spec fn place_next(state: PlaceState, event: FsEvent) -> PlaceStep {
    match (state, event) {
        (PlaceState::Probing, FsEvent::Exists(true)) => PlaceStep::Finished(Placed::Kept),
        (PlaceState::Probing, FsEvent::Exists(false)) => PlaceStep::Next(
            PlaceState::CreatingDir,
            PlaceAction::CreateDir,
        ),
        (PlaceState::CreatingDir, FsEvent::Done) => PlaceStep::Next(
            PlaceState::Writing,
            PlaceAction::Write,
        ),
        (PlaceState::Writing, FsEvent::Done) => PlaceStep::Finished(Placed::Written),
        (_, FsEvent::Failed(fault)) => PlaceStep::Finished(Placed::Failed(fault.message)),
        (_, _) => PlaceStep::Finished(Placed::OutOfTurn),
    }
}

/// Starts the placing of a starter file: says what is to be done first.
pub fn place() -> (step: PlaceStep)
    ensures
        step == place_start(),
{
    PlaceStep::Next(PlaceState::Probing, PlaceAction::Probe)
}

impl PlaceState {
    /// Takes up the placing with what came of the action last asked for.
    pub fn resume(self, event: FsEvent) -> (step: PlaceStep)
        ensures
            step == place_next(self, event),
    {
        match event {
            FsEvent::Failed(fault) => PlaceStep::Finished(Placed::Failed(fault.message)),
            FsEvent::Exists(found) => match self {
                PlaceState::Probing => if found {
                    PlaceStep::Finished(Placed::Kept)
                } else {
                    PlaceStep::Next(PlaceState::CreatingDir, PlaceAction::CreateDir)
                },
                _ => PlaceStep::Finished(Placed::OutOfTurn),
            },
            FsEvent::Done => match self {
                PlaceState::CreatingDir => PlaceStep::Next(PlaceState::Writing, PlaceAction::Write),
                PlaceState::Writing => PlaceStep::Finished(Placed::Written),
                PlaceState::Probing => PlaceStep::Finished(Placed::OutOfTurn),
            },
        }
    }
}

impl Placed {
    /// Whether the placing failed, so that the files after this one are not
    /// placed any more: a file that was kept is no failure.
    pub fn is_failure(&self) -> (r: bool)
        ensures
            r == (*self is Failed || *self is OutOfTurn),
    {
        match self {
            Placed::Written | Placed::Kept => false,
            Placed::Failed(_) | Placed::OutOfTurn => true,
        }
    }
}

/// What stands at a file's path is never written over: nothing is created or
/// written unless the probe found the path free, and a path that is taken
/// ends the placing at once, without failure.
pub proof fn lemma_existing_file_is_kept(state: PlaceState, event: FsEvent)
    ensures
        place_next(PlaceState::Probing, FsEvent::Exists(true)) == PlaceStep::Finished(Placed::Kept),
        place_next(state, event) matches PlaceStep::Next(_, PlaceAction::CreateDir) ==> state
            == PlaceState::Probing && event == FsEvent::Exists(false),
        place_next(state, event) matches PlaceStep::Next(_, PlaceAction::Write) ==> state
            == PlaceState::CreatingDir && event == FsEvent::Done,
        !(place_next(state, event) matches PlaceStep::Next(_, PlaceAction::Probe)),
{
}

} // verus!
