//! Reading a configuration document out of TOML text.

use vstd::prelude::*;
use crate::config::{ConfigValue, Doc, Table};
use crate::resolve::ConfigError;

verus! {

/// `serde_json::Value`, the tree that the parser hands over: taken as it is,
/// with nothing known of what it holds.
#[verifier::external_type_specification]
#[verifier::external_body]
pub struct ExJsonValue(serde_json::Value);

/// `toml::de::Error`, the parser's refusal: taken as it is.
#[verifier::external_type_specification]
#[verifier::external_body]
pub struct ExTomlError(toml::de::Error);

/// The value that `toml::from_str` reads out of `text`, if `text` is a TOML
/// document.
pub uninterp spec fn toml_value(text: Seq<char>) -> Option<serde_json::Value>;

/// The parts that the value `value` is made of.
pub uninterp spec fn json_parts(value: serde_json::Value) -> JsonParts;

/// How deep arrays and tables stand inside each other in `value`.
pub uninterp spec fn json_height(value: serde_json::Value) -> nat;

/// A value of the parser, taken apart one level deep.
pub enum JsonParts {
    Null,
    Bool(bool),
    Number(serde_json::Number),
    String(String),
    Array(Vec<serde_json::Value>),
    Object(Vec<(String, serde_json::Value)>),
}

impl JsonParts {
    /// Whether every value among the parts is less deep than `height`.
    pub open spec fn below(self, height: nat) -> bool {
        match self {
            JsonParts::Array(items) => forall|i: int|
                0 <= i < items@.len() ==> json_height(#[trigger] items@[i]) < height,
            JsonParts::Object(pairs) => forall|i: int|
                0 <= i < pairs@.len() ==> json_height((#[trigger] pairs@[i]).1) < height,
            _ => true,
        }
    }
}

/// Parses `text` with `toml::from_str` into a `serde_json::Value`. The
/// contract claims only that the outcome depends on the text alone: it is
/// the one that `toml_value` names.
#[verifier::external_body]
fn parse_toml(text: &str) -> (r: Result<serde_json::Value, toml::de::Error>)
    ensures
        r matches Ok(value) ==> toml_value(text@) == Some(value),
        r is Err ==> toml_value(text@) is None,
{
    toml::from_str::<serde_json::Value>(text)
}

/// The message of a parse error, by its `Display`.
#[verifier::external_body]
fn error_text(error: &toml::de::Error) -> String {
    error.to_string()
}

/// Tells the variants of a `serde_json::Value` apart and hands out what the
/// variant holds, a table as its pairs in the order of `serde_json::Map`'s
/// iterator. The contract claims that the parts depend on the value alone,
/// they are the ones that `json_parts` names, and that a value which stands
/// inside an array or a table is less deep than that array or table, as it
/// is in every tree.
#[verifier::external_body]
fn take_apart(value: serde_json::Value) -> (parts: JsonParts)
    ensures
        parts == json_parts(value),
        parts.below(json_height(value)),
{
    match value {
        serde_json::Value::Null => JsonParts::Null,
        serde_json::Value::Bool(b) => JsonParts::Bool(b),
        serde_json::Value::Number(n) => JsonParts::Number(n),
        serde_json::Value::String(s) => JsonParts::String(s),
        serde_json::Value::Array(items) => JsonParts::Array(items),
        serde_json::Value::Object(map) => JsonParts::Object(map.into_iter().collect()),
    }
}

/// The documents of `items`, which stand inside `whole`, in their order.
/// Each is less deep than `whole`, as every part that `take_apart` hands out
/// is; were one not, it would count as missing.
pub open spec fn docs_of(items: Seq<serde_json::Value>, whole: serde_json::Value) -> Seq<Doc>
    decreases json_height(whole), 0nat, items.len(),
{
    if items.len() == 0 {
        Seq::empty()
    } else {
        docs_of(items.drop_last(), whole).push(
            if json_height(items.last()) < json_height(whole) {
                doc_of(items.last())
            } else {
                Doc::Null
            },
        )
    }
}

/// The table of `pairs`, which stand inside `whole`: the document of each
/// value under its key; of two pairs with one key the earlier one stays.
pub open spec fn fields_of(pairs: Seq<(String, serde_json::Value)>, whole: serde_json::Value) -> Map<
    Seq<char>,
    Doc,
>
    decreases json_height(whole), 0nat, pairs.len(),
{
    if pairs.len() == 0 {
        Map::empty()
    } else {
        fields_of(pairs.drop_first(), whole).insert(
            pairs[0].0@,
            if json_height(pairs[0].1) < json_height(whole) {
                doc_of(pairs[0].1)
            } else {
                Doc::Null
            },
        )
    }
}

/// The document that `value` stands for: scalars as they are, an array with
/// the documents of its items in their order, a table with the document of
/// each value under its key.
pub open spec fn doc_of(value: serde_json::Value) -> Doc
    decreases json_height(value), 1nat, 0nat,
{
    match json_parts(value) {
        JsonParts::Null => Doc::Null,
        JsonParts::Bool(b) => Doc::Bool(b),
        JsonParts::Number(n) => Doc::Number(n),
        JsonParts::String(s) => Doc::Text(s@),
        JsonParts::Array(items) => Doc::Array(docs_of(items@, value)),
        JsonParts::Object(pairs) => Doc::Object(fields_of(pairs@, value)),
    }
}

/// Builds the document of a value of the parser.
pub fn document_of(value: serde_json::Value) -> (document: ConfigValue)
    ensures
        document.wf(),
        document@ == doc_of(value),
    decreases json_height(value), 1nat,
{
    match take_apart(value) {
        JsonParts::Null => ConfigValue::Null,
        JsonParts::Bool(b) => ConfigValue::Bool(b),
        JsonParts::Number(n) => ConfigValue::Number(n),
        JsonParts::String(s) => ConfigValue::String(s),
        JsonParts::Array(items) => {
            let list = documents_of(items, Ghost(value));
            let document = ConfigValue::Array(list);
            proof {
                assert forall|i: int| 0 <= i < items@.len() implies document@->Array_0[i] == docs_of(
                    items@,
                    value,
                )[i] by {
                    assert(list@[i]@ == docs_of(items@, value)[i]);
                }
                assert(document@->Array_0 =~= docs_of(items@, value));
            }
            document
        },
        JsonParts::Object(pairs) => ConfigValue::Object(table_from(pairs, Ghost(value))),
    }
}

/// The documents of the first `n` of `items` are the first `n` documents of
/// `items`.
proof fn lemma_docs_of(items: Seq<serde_json::Value>, whole: serde_json::Value, n: int)
    requires
        0 <= n <= items.len(),
    ensures
        docs_of(items.take(n), whole).len() == n,
        forall|i: int|
            0 <= i < n && json_height(#[trigger] items[i]) < json_height(whole) ==> docs_of(
                items.take(n),
                whole,
            )[i] == doc_of(items[i]),
    decreases n,
{
    if n > 0 {
        lemma_docs_of(items, whole, n - 1);
        assert(items.take(n).drop_last() =~= items.take(n - 1));
        assert(items.take(n).last() == items[n - 1]);
    }
}

/// Builds the documents of `items`, which stand inside `whole`.
fn documents_of(items: Vec<serde_json::Value>, Ghost(whole): Ghost<serde_json::Value>) -> (list: Vec<
    ConfigValue,
>)
    requires
        forall|i: int| 0 <= i < items@.len() ==> json_height(#[trigger] items@[i]) < json_height(whole),
    ensures
        list@.len() == items@.len(),
        docs_of(items@, whole).len() == items@.len(),
        forall|i: int| 0 <= i < list@.len() ==> (#[trigger] list@[i]).wf(),
        forall|i: int| 0 <= i < list@.len() ==> (#[trigger] list@[i])@ == docs_of(items@, whole)[i],
    decreases json_height(whole), 0nat,
{
    let ghost all = items@;
    let mut rest = items;
    let mut turned: Vec<ConfigValue> = Vec::new();
    while rest.len() > 0
        invariant
            all == items@,
            forall|i: int| 0 <= i < all.len() ==> json_height(#[trigger] all[i]) < json_height(whole),
            rest@.len() + turned@.len() == all.len(),
            forall|i: int| 0 <= i < rest@.len() ==> #[trigger] rest@[i] == all[i],
            forall|j: int| 0 <= j < turned@.len() ==> (#[trigger] turned@[j]).wf() && turned@[j]@ == doc_of(all[all.len() - 1 - j]),
        decreases rest@.len(),
    {
        let ghost n = rest@.len() - 1;
        let item = rest.pop().unwrap();
        assert(item == all[n]);
        turned.push(document_of(item));
    }
    let mut list: Vec<ConfigValue> = Vec::new();
    while turned.len() > 0
        invariant
            all == items@,
            list@.len() + turned@.len() == all.len(),
            forall|j: int| 0 <= j < turned@.len() ==> (#[trigger] turned@[j]).wf() && turned@[j]@ == doc_of(all[all.len() - 1 - j]),
            forall|i: int| 0 <= i < list@.len() ==> (#[trigger] list@[i]).wf() && list@[i]@ == doc_of(all[i]),
        decreases turned@.len(),
    {
        let ghost j = turned@.len() - 1;
        let document = turned.pop().unwrap();
        assert(document.wf() && document@ == doc_of(all[all.len() - 1 - j]));
        list.push(document);
    }
    proof {
        lemma_docs_of(all, whole, all.len() as int);
        assert(all.take(all.len() as int) =~= all);
    }
    list
}

/// Builds the table of `pairs`, which stand inside `whole`.
fn table_from(pairs: Vec<(String, serde_json::Value)>, Ghost(whole): Ghost<serde_json::Value>) -> (table:
    Table)
    requires
        forall|i: int| 0 <= i < pairs@.len() ==> json_height((#[trigger] pairs@[i]).1) < json_height(whole),
    ensures
        table.wf(),
        table@ == fields_of(pairs@, whole),
    decreases json_height(whole), 0nat,
{
    let ghost all = pairs@;
    let mut rest = pairs;
    let mut table = Table::new();
    proof {
        assert(all.subrange(all.len() as int, all.len() as int) =~= Seq::empty());
    }
    while rest.len() > 0
        invariant
            all == pairs@,
            forall|i: int| 0 <= i < all.len() ==> json_height((#[trigger] all[i]).1) < json_height(whole),
            rest@.len() <= all.len(),
            forall|i: int| 0 <= i < rest@.len() ==> #[trigger] rest@[i] == all[i],
            table.wf(),
            table@ == fields_of(all.subrange(rest@.len() as int, all.len() as int), whole),
        decreases rest@.len(),
    {
        let ghost n = rest@.len() - 1;
        let (key, value) = rest.pop().unwrap();
        assert((key, value) == all[n]);
        proof {
            let tail = all.subrange(n, all.len() as int);
            assert(tail.drop_first() =~= all.subrange(n + 1, all.len() as int));
            assert(tail[0] == all[n]);
        }
        let document = document_of(value);
        table.insert(key, document);
    }
    proof {
        assert(all.subrange(0, all.len() as int) =~= all);
    }
    table
}

/// What reading a text as a configuration document comes to.
pub enum Parsed {
    /// The text is no TOML document.
    Malformed,
    Document(Doc),
}

/// What reading `text` comes to.
pub open spec fn parsed(text: Seq<char>) -> Parsed {
    match toml_value(text) {
        None => Parsed::Malformed,
        Some(value) => Parsed::Document(doc_of(value)),
    }
}

/// Reads a TOML text as a configuration document.
pub fn parse_document(text: &str) -> (r: Result<ConfigValue, ConfigError>)
    ensures
        match r {
            Ok(document) => document.wf() && parsed(text@) == Parsed::Document(document@),
            Err(ConfigError::Malformed(_)) => parsed(text@) is Malformed,
            Err(ConfigError::Shape(_)) => false,
        },
{
    match parse_toml(text) {
        Err(error) => Err(ConfigError::Malformed(error_text(&error))),
        Ok(value) => Ok(document_of(value)),
    }
}

} // verus!
