//! The configuration of a run: the packaged defaults, overlaid by the user's
//! document where there is one.

use vstd::prelude::*;
use crate::config::{merge_config, merged, ConfigValue, Doc, Table};
use crate::parse::{parse_document, parsed, Parsed};
use crate::settings::{config_of, Config, ConfigView, ShapeError};

verus! {

/// Why no configuration could be had.
#[derive(Debug, PartialEq, Eq)]
pub enum ConfigError {
    /// A text is no TOML document; the message is the parser's.
    Malformed(String),
    /// The merged document is no configuration.
    Shape(ShapeError),
}

/// A `ConfigError` without the parser's message.
pub enum Fault {
    Malformed,
    Shape(ShapeError),
}

impl View for ConfigError {
    type V = Fault;

    open spec fn view(&self) -> Fault {
        match self {
            ConfigError::Malformed(_) => Fault::Malformed,
            ConfigError::Shape(e) => Fault::Shape(*e),
        }
    }
}

/// The document without fields, which stands for a user's document that is
/// not there.
pub open spec fn empty_document() -> Doc {
    Doc::Object(Map::empty())
}

/// The configuration that the defaults give under the user's document.
pub open spec fn resolved(default_config: Doc, user_config: Option<Doc>) -> Result<
    ConfigView,
    ShapeError,
> {
    config_of(
        merged(
            default_config,
            match user_config {
                Some(document) => document,
                None => empty_document(),
            },
        ),
    )
}

/// Overlays the user's document, if there is one, on the defaults and reads
/// the configuration out of the result.
pub fn resolve(default_config: ConfigValue, user_config: Option<ConfigValue>) -> (r: Result<
    Config,
    ShapeError,
>)
    requires
        default_config.wf(),
        user_config matches Some(document) ==> document.wf(),
    ensures
        match r {
            Ok(config) => resolved(default_config@, option_doc(user_config)) == Ok::<ConfigView, ShapeError>(config@),
            Err(e) => resolved(default_config@, option_doc(user_config)) == Err::<ConfigView, ShapeError>(e),
        },
{
    let mut document = default_config;
    let over = match user_config {
        Some(over) => over,
        None => ConfigValue::Object(Table::new()),
    };
    merge_config(&mut document, over);
    Config::from_document(&document)
}

/// The document of an optional value.
pub open spec fn option_doc(value: Option<ConfigValue>) -> Option<Doc> {
    match value {
        Some(document) => Some(document@),
        None => None,
    }
}

/// The text of an optional string.
pub open spec fn option_text(text: Option<&str>) -> Option<Seq<char>> {
    match text {
        Some(t) => Some(t@),
        None => None,
    }
}

/// The configuration that the two texts give: both must be TOML documents,
/// the defaults are read first, and what they give together must be a
/// configuration.
pub open spec fn configured(default_text: Seq<char>, user_text: Option<Seq<char>>) -> Result<
    ConfigView,
    Fault,
> {
    match parsed(default_text) {
        Parsed::Malformed => Err(Fault::Malformed),
        Parsed::Document(defaults) => match user_text {
            None => match resolved(defaults, None) {
                Ok(config) => Ok(config),
                Err(e) => Err(Fault::Shape(e)),
            },
            Some(text) => match parsed(text) {
                Parsed::Malformed => Err(Fault::Malformed),
                        Parsed::Document(user) => match resolved(defaults, Some(user)) {
                    Ok(config) => Ok(config),
                    Err(e) => Err(Fault::Shape(e)),
                },
            },
        },
    }
}

/// Makes the configuration out of the text of the packaged defaults and the
/// text of the user's file, where that file could be read.
pub fn init_config(default_text: &str, user_text: Option<&str>) -> (r: Result<Config, ConfigError>)
    ensures
        match r {
            Ok(config) => configured(default_text@, option_text(user_text)) == Ok::<ConfigView, Fault>(config@),
            Err(e) => configured(default_text@, option_text(user_text)) == Err::<ConfigView, Fault>(e@),
        },
{
    let defaults = match parse_document(default_text) {
        Ok(document) => document,
        Err(e) => { return Err(e); },
    };
    let user = match user_text {
        None => None,
        Some(text) => match parse_document(text) {
            Ok(document) => Some(document),
            Err(e) => { return Err(e); },
        },
    };
    match resolve(defaults, user) {
        Ok(config) => Ok(config),
        Err(e) => Err(ConfigError::Shape(e)),
    }
}

} // verus!
