//! The configuration that the program runs with, read out of the merged
//! document.

use vstd::prelude::*;
use crate::config::{ConfigValue, Doc, Table};
use crate::order::texts;

verus! {

/// The paths that the program works on.
#[derive(Debug, Default, PartialEq, Eq)]
pub struct Paths {
    pub nginx: String,
    pub sites_available: String,
    pub sites_enabled: String,
    pub logs: String,
}

/// The whole configuration.
#[derive(Debug, Default, PartialEq, Eq)]
pub struct Config {
    pub paths: Paths,
    pub ignore_values_in_log: Vec<String>,
}

/// What a `Paths` stands for in contracts.
pub struct PathsView {
    pub nginx: Seq<char>,
    pub sites_available: Seq<char>,
    pub sites_enabled: Seq<char>,
    pub logs: Seq<char>,
}

/// What a `Config` stands for in contracts.
pub struct ConfigView {
    pub paths: PathsView,
    pub ignore_values_in_log: Seq<Seq<char>>,
}

impl View for Paths {
    type V = PathsView;

    open spec fn view(&self) -> PathsView {
        PathsView {
            nginx: self.nginx@,
            sites_available: self.sites_available@,
            sites_enabled: self.sites_enabled@,
            logs: self.logs@,
        }
    }
}

impl View for Config {
    type V = ConfigView;

    open spec fn view(&self) -> ConfigView {
        ConfigView { paths: self.paths@, ignore_values_in_log: texts(self.ignore_values_in_log@) }
    }
}

impl Clone for Paths {
    fn clone(&self) -> (r: Self)
        ensures
            r@ == self@,
    {
        Paths {
            nginx: self.nginx.clone(),
            sites_available: self.sites_available.clone(),
            sites_enabled: self.sites_enabled.clone(),
            logs: self.logs.clone(),
        }
    }
}

impl Clone for Config {
    fn clone(&self) -> (r: Self)
        ensures
            r@ == self@,
    {
        let mut ignore: Vec<String> = Vec::new();
        let mut i: usize = 0;
        while i < self.ignore_values_in_log.len()
            invariant
                i <= self.ignore_values_in_log@.len(),
                ignore@.len() == i,
                forall|j: int| 0 <= j < i ==> (#[trigger] ignore@[j])@ == self.ignore_values_in_log@[j]@,
            decreases self.ignore_values_in_log@.len() - i,
        {
            ignore.push(self.ignore_values_in_log[i].clone());
            i += 1;
        }
        assert(texts(ignore@) =~= texts(self.ignore_values_in_log@));
        Config { paths: self.paths.clone(), ignore_values_in_log: ignore }
    }
}

/// The fields that a configuration document must have.
#[derive(Clone, Copy, Debug, PartialEq, Eq)]
pub enum Setting {
    Paths,
    Nginx,
    SitesAvailable,
    SitesEnabled,
    Logs,
    IgnoreValuesInLog,
}

/// Why a document is no configuration.
#[derive(Clone, Copy, Debug, PartialEq, Eq)]
pub enum ShapeError {
    /// The document is not a table.
    NotATable,
    /// The field is not there.
    Missing(Setting),
    /// The field is there, but holds a value of another kind than it must.
    WrongKind(Setting),
}

impl Setting {
    /// The key under which the field stands in its table.
    pub open spec fn key(self) -> Seq<char> {
        match self {
            Setting::Paths => "paths"@,
            Setting::Nginx => "nginx"@,
            Setting::SitesAvailable => "sites_available"@,
            Setting::SitesEnabled => "sites_enabled"@,
            Setting::Logs => "logs"@,
            Setting::IgnoreValuesInLog => "ignore_values_in_log"@,
        }
    }

    /// The key under which the field stands in its table.
    pub fn name(self) -> (s: &'static str)
        ensures
            s@ == self.key(),
    {
        match self {
            Setting::Paths => "paths",
            Setting::Nginx => "nginx",
            Setting::SitesAvailable => "sites_available",
            Setting::SitesEnabled => "sites_enabled",
            Setting::Logs => "logs",
            Setting::IgnoreValuesInLog => "ignore_values_in_log",
        }
    }
}

/// The text that `table` holds for `setting`.
pub open spec fn text_of(table: Map<Seq<char>, Doc>, setting: Setting) -> Result<Seq<char>, ShapeError> {
    if !table.contains_key(setting.key()) {
        Err(ShapeError::Missing(setting))
    } else {
        match table[setting.key()] {
            Doc::Text(t) => Ok(t),
            _ => Err(ShapeError::WrongKind(setting)),
        }
    }
}

/// Whether every item of `items` is a text.
pub open spec fn all_texts(items: Seq<Doc>) -> bool {
    forall|i: int| 0 <= i < items.len() ==> #[trigger] items[i] is Text
}

/// The texts that `table` holds for `setting`, which must be an array of
/// texts.
pub open spec fn texts_of(table: Map<Seq<char>, Doc>, setting: Setting) -> Result<
    Seq<Seq<char>>,
    ShapeError,
> {
    if !table.contains_key(setting.key()) {
        Err(ShapeError::Missing(setting))
    } else {
        match table[setting.key()] {
            Doc::Array(items) if all_texts(items) => Ok(Seq::new(items.len(), |i: int| items[i]->Text_0)),
            _ => Err(ShapeError::WrongKind(setting)),
        }
    }
}

/// The paths that the table `table` gives; of several faults the first in
/// the order of the fields is reported.
pub open spec fn paths_of(table: Map<Seq<char>, Doc>) -> Result<PathsView, ShapeError> {
    match (
        text_of(table, Setting::Nginx),
        text_of(table, Setting::SitesAvailable),
        text_of(table, Setting::SitesEnabled),
        text_of(table, Setting::Logs),
    ) {
        (Ok(nginx), Ok(sites_available), Ok(sites_enabled), Ok(logs)) => Ok(
            PathsView { nginx, sites_available, sites_enabled, logs },
        ),
        (Err(e), _, _, _) => Err(e),
        (_, Err(e), _, _) => Err(e),
        (_, _, Err(e), _) => Err(e),
        (_, _, _, Err(e)) => Err(e),
    }
}

/// The configuration that the document `doc` gives: a table with the paths
/// in a table of their own and the list of what to leave out of a log.
/// Fields that are not asked for are passed over.
pub open spec fn config_of(doc: Doc) -> Result<ConfigView, ShapeError> {
    match doc {
        Doc::Object(root) => if !root.contains_key(Setting::Paths.key()) {
            Err(ShapeError::Missing(Setting::Paths))
        } else {
            match root[Setting::Paths.key()] {
                Doc::Object(table) => match paths_of(table) {
                    Err(e) => Err(e),
                    Ok(paths) => match texts_of(root, Setting::IgnoreValuesInLog) {
                        Err(e) => Err(e),
                        Ok(ignore_values_in_log) => Ok(ConfigView { paths, ignore_values_in_log }),
                    },
                },
                _ => Err(ShapeError::WrongKind(Setting::Paths)),
            }
        },
        _ => Err(ShapeError::NotATable),
    }
}

/// Reads the text that `table` holds for `setting`.
fn text_in(table: &Table, setting: Setting) -> (r: Result<String, ShapeError>)
    requires
        table.wf(),
    ensures
        match r {
            Ok(text) => text_of(table@, setting) == Ok::<Seq<char>, ShapeError>(text@),
            Err(e) => text_of(table@, setting) == Err::<Seq<char>, ShapeError>(e),
        },
{
    match table.get(setting.name()) {
        None => Err(ShapeError::Missing(setting)),
        Some(ConfigValue::String(text)) => Ok(text.clone()),
        Some(_) => Err(ShapeError::WrongKind(setting)),
    }
}

/// Reads the texts that `table` holds for `setting`.
fn texts_in(table: &Table, setting: Setting) -> (r: Result<Vec<String>, ShapeError>)
    requires
        table.wf(),
    ensures
        match r {
            Ok(list) => texts_of(table@, setting) == Ok::<Seq<Seq<char>>, ShapeError>(texts(list@)),
            Err(e) => texts_of(table@, setting) == Err::<Seq<Seq<char>>, ShapeError>(e),
        },
{
    match table.get(setting.name()) {
        None => Err(ShapeError::Missing(setting)),
        Some(ConfigValue::Array(items)) => {
            let ghost docs = table@[setting.key()]->Array_0;
            assert(docs.len() == items@.len());
            let mut list: Vec<String> = Vec::new();
            let mut i: usize = 0;
            while i < items.len()
                invariant
                    i <= items@.len(),
                    table@.contains_key(setting.key()),
                    table@[setting.key()] == Doc::Array(docs),
                    docs.len() == items@.len(),
                    forall|j: int| 0 <= j < items@.len() ==> docs[j] == (#[trigger] items@[j]).doc(),
                    list@.len() == i,
                    forall|j: int| 0 <= j < i ==> docs[j] == Doc::Text((#[trigger] list@[j])@),
                decreases items@.len() - i,
            {
                match &items[i] {
                    ConfigValue::String(text) => {
                        list.push(text.clone());
                    },
                    _ => {
                        assert(!(docs[i as int] is Text));
                        return Err(ShapeError::WrongKind(setting));
                    },
                }
                i += 1;
            }
            proof {
                assert forall|j: int| 0 <= j < docs.len() implies #[trigger] docs[j] is Text by {
                    assert(docs[j] == Doc::Text(list@[j]@));
                }
                assert(texts(list@) =~= Seq::new(docs.len(), |i: int| docs[i]->Text_0));
            }
            Ok(list)
        },
        Some(_) => Err(ShapeError::WrongKind(setting)),
    }
}

impl Paths {
    /// Reads the paths out of their table.
    pub fn from_table(table: &Table) -> (r: Result<Paths, ShapeError>)
        requires
            table.wf(),
        ensures
            match r {
                Ok(paths) => paths_of(table@) == Ok::<PathsView, ShapeError>(paths@),
                Err(e) => paths_of(table@) == Err::<PathsView, ShapeError>(e),
            },
    {
        let nginx = match text_in(table, Setting::Nginx) {
            Ok(text) => text,
            Err(e) => { return Err(e); },
        };
        let sites_available = match text_in(table, Setting::SitesAvailable) {
            Ok(text) => text,
            Err(e) => { return Err(e); },
        };
        let sites_enabled = match text_in(table, Setting::SitesEnabled) {
            Ok(text) => text,
            Err(e) => { return Err(e); },
        };
        let logs = match text_in(table, Setting::Logs) {
            Ok(text) => text,
            Err(e) => { return Err(e); },
        };
        Ok(Paths { nginx, sites_available, sites_enabled, logs })
    }
}

impl Config {
    /// Reads the configuration out of a document.
    pub fn from_document(document: &ConfigValue) -> (r: Result<Config, ShapeError>)
        requires
            document.wf(),
        ensures
            match r {
                Ok(config) => config_of(document@) == Ok::<ConfigView, ShapeError>(config@),
                Err(e) => config_of(document@) == Err::<ConfigView, ShapeError>(e),
            },
    {
        match document {
            ConfigValue::Object(root) => match root.get(Setting::Paths.name()) {
                None => Err(ShapeError::Missing(Setting::Paths)),
                Some(ConfigValue::Object(table)) => {
                    let paths = match Paths::from_table(table) {
                        Ok(paths) => paths,
                        Err(e) => { return Err(e); },
                    };
                    match texts_in(root, Setting::IgnoreValuesInLog) {
                        Ok(ignore_values_in_log) => Ok(Config { paths, ignore_values_in_log }),
                        Err(e) => Err(e),
                    }
                },
                Some(_) => Err(ShapeError::WrongKind(Setting::Paths)),
            },
            _ => Err(ShapeError::NotATable),
        }
    }
}

} // verus!
