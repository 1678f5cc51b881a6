//! The configuration document: a tree of tables, arrays and scalars, and the
//! overlay of a user's document on the packaged defaults.

use vstd::prelude::*;
use crate::order::{name_lt, names_ascend, position, Named};
use crate::order::{lemma_name_lt_irreflexive, lemma_name_lt_transitive};

verus! {

/// `serde_json::Number`, a number as the parser made it: taken as it is,
/// with nothing known of its value.
#[verifier::external_type_specification]
#[verifier::external_body]
pub struct ExNumber(serde_json::Number);

/// What a document stands for in contracts.
pub enum Doc {
    Null,
    Bool(bool),
    Number(serde_json::Number),
    Text(Seq<char>),
    Array(Seq<Doc>),
    Object(Map<Seq<char>, Doc>),
}

/// A configuration document, or a part of one.
#[derive(Debug, PartialEq)]
pub enum ConfigValue {
    Null,
    Bool(bool),
    /// A number, kept as the parser made it.
    Number(serde_json::Number),
    String(String),
    Array(Vec<ConfigValue>),
    Object(Table),
}

/// One key of a table with its value.
#[derive(Debug, PartialEq)]
pub struct Field {
    pub key: String,
    pub value: ConfigValue,
}

/// The keys of a document's table with their values: no key occurs twice.
#[derive(Debug, PartialEq)]
pub struct Table {
    fields: Vec<Field>,
}

impl Named for Field {
    open spec fn name(&self) -> Seq<char> {
        self.key@
    }

    fn name_str(&self) -> (s: &str) {
        self.key.as_str()
    }
}

impl ConfigValue {
    /// The document that the value stands for.
    pub open spec fn doc(&self) -> Doc
        decreases self,
    {
        match self {
            ConfigValue::Null => Doc::Null,
            ConfigValue::Bool(b) => Doc::Bool(*b),
            ConfigValue::Number(n) => Doc::Number(*n),
            ConfigValue::String(s) => Doc::Text(s@),
            ConfigValue::Array(items) => Doc::Array(
                Seq::new(
                    items@.len(),
                    |i: int|
                        if 0 <= i < items@.len() {
                            items@[i].doc()
                        } else {
                            Doc::Null
                        },
                ),
            ),
            ConfigValue::Object(table) => Doc::Object(table.docs()),
        }
    }

    /// Whether every table in the value is well formed: every document that
    /// this module hands out is.
    pub open spec fn wf(&self) -> bool
        decreases self,
    {
        match self {
            ConfigValue::Array(items) => forall|i: int| 0 <= i < items@.len() ==> (#[trigger] items@[i]).wf(),
            ConfigValue::Object(table) => table.wf(),
            _ => true,
        }
    }
}

impl View for ConfigValue {
    type V = Doc;

    open spec fn view(&self) -> Doc {
        self.doc()
    }
}

impl Table {
    /// The documents of the table's values, each under its key.
    pub closed spec fn docs(&self) -> Map<Seq<char>, Doc>
        decreases self,
    {
        Map::new(
            |k: Seq<char>| exists|i: int| 0 <= i < self.fields@.len() && #[trigger] self.fields@[i].key@ == k,
            |k: Seq<char>|
                {
                    let i = choose|i: int| 0 <= i < self.fields@.len() && #[trigger] self.fields@[i].key@ == k;
                    if 0 <= i < self.fields@.len() {
                        self.fields@[i].value.doc()
                    } else {
                        Doc::Null
                    }
                },
        )
    }

    /// Whether the table and the tables below it are well formed.
    pub closed spec fn wf(&self) -> bool
        decreases self,
    {
        &&& names_ascend(self.fields@)
        &&& forall|i: int| 0 <= i < self.fields@.len() ==> (#[trigger] self.fields@[i]).value.wf()
    }
}

impl View for Table {
    type V = Map<Seq<char>, Doc>;

    open spec fn view(&self) -> Map<Seq<char>, Doc> {
        self.docs()
    }
}

/// The overlay of `over` on `base`: two tables are merged key by key, the
/// keys of both kept; in every other case `over` takes the place of `base`.
pub open spec fn merged(base: Doc, over: Doc) -> Doc
    decreases over,
{
    match (base, over) {
        (Doc::Object(a), Doc::Object(b)) => Doc::Object(
            Map::new(
                |k: Seq<char>| a.contains_key(k) || b.contains_key(k),
                |k: Seq<char>|
                    if !b.contains_key(k) {
                        a[k]
                    } else if a.contains_key(k) {
                        merged(a[k], b[k])
                    } else {
                        b[k]
                    },
            ),
        ),
        (_, _) => over,
    }
}

/// A table under an override without fields stays as it is.
pub proof fn lemma_merged_with_empty(base: Doc)
    requires
        base is Object,
    ensures
        merged(base, Doc::Object(Map::empty())) == base,
{
    let a = base->Object_0;
    assert(merged(base, Doc::Object(Map::empty()))->Object_0 =~= a);
}

/// What is no table takes the place of whatever it overrides, as a whole:
/// an array is never joined to the array before it.
pub proof fn lemma_merged_replaces(base: Doc, over: Doc)
    requires
        !(over is Object),
    ensures
        merged(base, over) == over,
{
}

/// A table overrides what is no table as a whole.
pub proof fn lemma_merged_over_scalar(base: Doc, over: Doc)
    requires
        !(base is Object),
    ensures
        merged(base, over) == over,
{
}

/// Two tables merge key by key: the result has the keys of both, keeps the
/// default's value where the override has none, takes the override's where
/// the default has none, and merges the two values where both have one.
pub proof fn lemma_merged_tables(a: Map<Seq<char>, Doc>, b: Map<Seq<char>, Doc>, key: Seq<char>)
    ensures
        merged(Doc::Object(a), Doc::Object(b)) is Object,
        ({
            let m = merged(Doc::Object(a), Doc::Object(b))->Object_0;
            &&& m.contains_key(key) <==> a.contains_key(key) || b.contains_key(key)
            &&& a.contains_key(key) && !b.contains_key(key) ==> m[key] == a[key]
            &&& !a.contains_key(key) && b.contains_key(key) ==> m[key] == b[key]
            &&& a.contains_key(key) && b.contains_key(key) ==> m[key] == merged(a[key], b[key])
        }),
{
}

/// A document overlaid on itself stays as it is.
pub proof fn lemma_merged_self(doc: Doc)
    ensures
        merged(doc, doc) == doc,
    decreases doc,
{
    if let Doc::Object(a) = doc {
        let m = merged(doc, doc)->Object_0;
        assert forall|k: Seq<char>| #[trigger] m.contains_key(k) implies m[k] == a[k] by {
            lemma_merged_self(a[k]);
        }
        assert(m =~= a);
    }
}

/// Overlaying the same override a second time changes nothing.
pub proof fn lemma_merged_idempotent(base: Doc, over: Doc)
    ensures
        merged(merged(base, over), over) == merged(base, over),
    decreases over,
{
    if let Doc::Object(b) = over {
        if let Doc::Object(a) = base {
            let once = merged(base, over)->Object_0;
            let twice = merged(merged(base, over), over)->Object_0;
            assert forall|k: Seq<char>| #[trigger] twice.contains_key(k) implies twice[k] == once[k] by {
                if b.contains_key(k) {
                    if a.contains_key(k) {
                        lemma_merged_idempotent(a[k], b[k]);
                    } else {
                        lemma_merged_self(b[k]);
                    }
                }
            }
            assert(twice =~= once);
        } else {
            lemma_merged_self(over);
        }
    }
}

/// What stands in `doc` at the end of `path`, a run of keys from table to
/// table.
pub open spec fn at_path(doc: Doc, path: Seq<Seq<char>>) -> Option<Doc>
    decreases path.len(),
{
    if path.len() == 0 {
        Some(doc)
    } else {
        match doc {
            Doc::Object(table) if table.contains_key(path[0]) => at_path(
                table[path[0]],
                path.drop_first(),
            ),
            _ => None,
        }
    }
}

/// What the override holds at the end of a path, if it is no table, stands
/// at the end of that path in the overlay, whatever the default held there.
pub proof fn lemma_override_wins(base: Doc, over: Doc, path: Seq<Seq<char>>)
    requires
        at_path(over, path) matches Some(leaf) && !(leaf is Object),
    ensures
        at_path(merged(base, over), path) == at_path(over, path),
    decreases path.len(),
{
    if path.len() > 0 {
        let b = over->Object_0;
        let key = path[0];
        if let Doc::Object(a) = base {
            if a.contains_key(key) {
                lemma_override_wins(a[key], b[key], path.drop_first());
            }
        }
    }
}

/// What the default holds at the end of a path stays there in the overlay,
/// where the override is a table that lacks the path's first key.
pub proof fn lemma_default_stays(base: Doc, over: Doc, path: Seq<Seq<char>>)
    requires
        path.len() > 0,
        base is Object,
        over matches Doc::Object(table) && !table.contains_key(path[0]),
    ensures
        at_path(merged(base, over), path) == at_path(base, path),
{
}

impl Table {
    /// What the fields of a well-formed table say of its documents.
    proof fn lemma_docs(&self)
        requires
            names_ascend(self.fields@),
        ensures
            forall|i: int|
                0 <= i < self.fields@.len() ==> self.docs().contains_key(#[trigger] self.fields@[i].key@)
                    && self.docs()[self.fields@[i].key@] == self.fields@[i].value.doc(),
            forall|k: Seq<char>| #[trigger]
                self.docs().contains_key(k) ==> exists|i: int|
                    0 <= i < self.fields@.len() && #[trigger] self.fields@[i].key@ == k,
    {
        let f = self.fields@;
        assert forall|i: int| 0 <= i < f.len() implies self.docs().contains_key(#[trigger] f[i].key@)
            && self.docs()[f[i].key@] == f[i].value.doc() by {
            let j = choose|j: int| 0 <= j < f.len() && #[trigger] f[j].key@ == f[i].key@;
            lemma_name_lt_irreflexive(f[i].key@);
            if i < j {
                assert(name_lt(f[i].name(), f[j].name()));
            } else if j < i {
                assert(name_lt(f[j].name(), f[i].name()));
            }
        }
    }

    /// The table without fields.
    pub fn new() -> (r: Table)
        ensures
            r.wf(),
            r@ == Map::<Seq<char>, Doc>::empty(),
    {
        let r = Table { fields: Vec::new() };
        assert(r@ =~= Map::<Seq<char>, Doc>::empty());
        r
    }

    /// The fields in ascending order of their keys.
    pub fn fields(&self) -> (r: &Vec<Field>)
        requires
            self.wf(),
        ensures
            names_ascend(r@),
            forall|i: int|
                0 <= i < r@.len() ==> (#[trigger] r@[i]).value.wf() && self@.contains_key(r@[i].key@)
                    && self@[r@[i].key@] == r@[i].value@,
            forall|k: Seq<char>| #[trigger]
                self@.contains_key(k) ==> exists|i: int| 0 <= i < r@.len() && #[trigger] r@[i].key@ == k,
    {
        proof {
            self.lemma_docs();
        }
        &self.fields
    }

    /// The value under `key`, if there is one.
    pub fn get(&self, key: &str) -> (r: Option<&ConfigValue>)
        requires
            self.wf(),
        ensures
            match r {
                Some(value) => self@.contains_key(key@) && value@ == self@[key@] && value.wf(),
                None => !self@.contains_key(key@),
            },
    {
        proof {
            self.lemma_docs();
        }
        let (i, found) = position(&self.fields, key);
        if found {
            assert(self.fields@[i as int].key@ == key@);
            assert(self.fields@[i as int].value.wf());
            Some(&self.fields[i].value)
        } else {
            proof {
                if self@.contains_key(key@) {
                    let j = choose|j: int| 0 <= j < self.fields@.len() && #[trigger] self.fields@[j].key@ == key@;
                    assert(self.fields@[j].name() == key@);
                }
            }
            None
        }
    }

    /// Puts `value` under `key`, in place of what stood there before.
    pub fn insert(&mut self, key: String, value: ConfigValue)
        requires
            old(self).wf(),
            value.wf(),
        ensures
            final(self).wf(),
            final(self)@ == old(self)@.insert(key@, value@),
    {
        let (i, found) = position(&self.fields, key.as_str());
        if found {
            self.fields[i].value = value;
        } else {
            self.fields.insert(i, Field { key, value });
        }
        proof {
            lemma_put(old(self).fields@, self.fields@, i as int, found);
            old(self).lemma_docs();
            self.lemma_docs();
            lemma_put_docs(*old(self), *self, i as int, found);
        }
    }
}

/// Whether `after` is `before` with the field at `i` put in: in place of the
/// one that stood there, if `found`, else between its neighbours.
spec fn put(before: Seq<Field>, after: Seq<Field>, i: int, found: bool) -> bool {
    let skip: int = if found { 1 } else { 0 };
    &&& 0 <= i <= before.len()
    &&& found ==> i < before.len() && before[i].key@ == after[i].key@
    &&& after.len() == before.len() + 1 - skip
    &&& forall|j: int| 0 <= j < i ==> #[trigger] after[j] == before[j]
    &&& forall|j: int| i < j < after.len() ==> #[trigger] after[j] == before[j - 1 + skip]
    &&& forall|j: int| 0 <= j < i ==> name_lt(#[trigger] before[j].name(), after[i].name())
    &&& forall|j: int| i + skip <= j < before.len() ==> name_lt(after[i].name(), #[trigger] before[j].name())
}

proof fn lemma_put(before: Seq<Field>, after: Seq<Field>, i: int, found: bool)
    requires
        names_ascend(before),
        0 <= i <= before.len(),
        forall|j: int| 0 <= j < i ==> name_lt(#[trigger] before[j].name(), after[i].name()),
        found ==> i < before.len() && before[i].key@ == after[i].key@ && after =~= before.update(i, after[i]),
        !found ==> (forall|j: int| i <= j < before.len() ==> name_lt(after[i].name(), #[trigger] before[j].name()))
            && i < after.len() && after =~= before.insert(i, after[i]),
        found ==> forall|j: int| i < j < before.len() ==> name_lt(after[i].name(), #[trigger] before[j].name()),
    ensures
        put(before, after, i, found),
        names_ascend(after),
{
    let skip: int = if found { 1 } else { 0 };
    assert forall|a: int, b: int| 0 <= a < b < after.len() implies name_lt(#[trigger] after[a].name(), #[trigger] after[b].name()) by {
        if a < i && b > i {
            assert(name_lt(before[a].name(), after[i].name()));
            assert(name_lt(after[i].name(), before[b - 1 + skip].name()));
            lemma_name_lt_transitive(after[a].name(), after[i].name(), after[b].name());
        } else if a < i && b == i {
            assert(name_lt(before[a].name(), after[i].name()));
        } else if a == i {
            assert(name_lt(after[i].name(), before[b - 1 + skip].name()));
        } else if b < i {
            assert(name_lt(before[a].name(), before[b].name()));
        } else {
            assert(name_lt(before[a - 1 + skip].name(), before[b - 1 + skip].name()));
        }
    }
}

proof fn lemma_put_docs(before: Table, after: Table, i: int, found: bool)
    requires
        names_ascend(before.fields@),
        names_ascend(after.fields@),
        put(before.fields@, after.fields@, i, found),
    ensures
        after.docs() == before.docs().insert(after.fields@[i].key@, after.fields@[i].value.doc()),
{
    before.lemma_docs();
    after.lemma_docs();
    let b = before.fields@;
    let a = after.fields@;
    let skip: int = if found { 1 } else { 0 };
    let m = before.docs().insert(a[i].key@, a[i].value.doc());
    assert forall|k: Seq<char>| #[trigger] m.contains_key(k) implies after.docs().contains_key(k) && after.docs()[k] == m[k] by {
        if k == a[i].key@ {
        } else {
            let j = choose|j: int| 0 <= j < b.len() && #[trigger] b[j].key@ == k;
            let t = if j < i { j } else { j + 1 - skip };
            assert(a[t] == b[j]);
            assert(a[t].key@ == k);
        }
    }
    assert forall|k: Seq<char>| #[trigger] after.docs().contains_key(k) implies m.contains_key(k) by {
        let j = choose|j: int| 0 <= j < a.len() && #[trigger] a[j].key@ == k;
        if j < i {
            assert(b[j].key@ == k);
        } else if j > i {
            assert(b[j - 1 + skip].key@ == k);
        }
    }
    assert(after.docs().dom() =~= m.dom());
    assert(after.docs() =~= m);
}

/// The table `a` overlaid with those fields of `b` whose keys `done` holds.
pub open spec fn overlaid(
    a: Map<Seq<char>, Doc>,
    b: Map<Seq<char>, Doc>,
    done: Set<Seq<char>>,
) -> Map<Seq<char>, Doc> {
    Map::new(
        |k: Seq<char>| a.contains_key(k) || (b.contains_key(k) && done.contains(k)),
        |k: Seq<char>|
            if !(b.contains_key(k) && done.contains(k)) {
                a[k]
            } else if a.contains_key(k) {
                merged(a[k], b[k])
            } else {
                b[k]
            },
    )
}

/// Overlays `user_config` on `default_config`: where both are tables they are
/// merged key by key, and so on below; anything else of the user's takes the
/// place of the default, an array as a whole.
pub fn merge_config(default_config: &mut ConfigValue, user_config: ConfigValue)
    requires
        old(default_config).wf(),
        user_config.wf(),
    ensures
        final(default_config).wf(),
        final(default_config)@ == merged(old(default_config)@, user_config@),
    decreases user_config,
{
    match user_config {
        ConfigValue::Object(over) => {
            match default_config {
                ConfigValue::Object(base) => {
                    merge_tables(base, over);
                },
                _ => {
                    *default_config = ConfigValue::Object(over);
                },
            }
        },
        _ => {
            *default_config = user_config;
        },
    }
}

/// Overlays the table `over` on the table `base`, field by field.
fn merge_tables(base: &mut Table, over: Table)
    requires
        old(base).wf(),
        over.wf(),
    ensures
        final(base).wf(),
        Doc::Object(final(base)@) == merged(Doc::Object(old(base)@), Doc::Object(over@)),
    decreases over, 0nat,
{
    let ghost a = base@;
    let ghost b = over@;
    let ghost all = over.fields@;
    proof {
        over.lemma_docs();
        assert(base@ =~= overlaid(a, b, Set::empty()));
    }
    let mut rest = over.fields;
    while rest.len() > 0
        invariant
            base.wf(),
            names_ascend(all),
            all == over.fields@,
            rest@.len() <= all.len(),
            forall|i: int| 0 <= i < rest@.len() ==> #[trigger] rest@[i] == all[i],
            forall|i: int| 0 <= i < all.len() ==> (#[trigger] all[i]).value.wf(),
            forall|i: int| 0 <= i < all.len() ==> b.contains_key(#[trigger] all[i].key@) && b[all[i].key@] == all[i].value.doc(),
            forall|k: Seq<char>| #[trigger] b.contains_key(k) ==> exists|i: int| 0 <= i < all.len() && #[trigger] all[i].key@ == k,
            base@ == overlaid(
                a,
                b,
                Set::new(|k: Seq<char>| exists|i: int| rest@.len() <= i < all.len() && #[trigger] all[i].key@ == k),
            ),
        decreases rest@.len(),
    {
        let ghost n = rest@.len() - 1;
        let ghost before = *base;
        let ghost done = Set::new(|k: Seq<char>| exists|i: int| n + 1 <= i < all.len() && #[trigger] all[i].key@ == k);
        let ghost next = Set::new(|k: Seq<char>| exists|i: int| n <= i < all.len() && #[trigger] all[i].key@ == k);
        let field = rest.pop().unwrap();
        assert(field == all[n]);
        assert(all[n].value.wf());
        let ghost key = field.key@;
        let ghost added = field.value.doc();
        proof {
            assert(!done.contains(key)) by {
                if done.contains(key) {
                    let i = choose|i: int| n + 1 <= i < all.len() && #[trigger] all[i].key@ == key;
                    assert(name_lt(all[n].name(), all[i].name()));
                    lemma_name_lt_irreflexive(key);
                }
            }
            assert(b.contains_key(all[n].key@) && b[key] == added);
        }
        let (i, found) = position(&base.fields, field.key.as_str());
        if found {
            proof {
                before.lemma_docs();
                assert(before.fields@[i as int].key@ == key);
                assert(before.fields@[i as int].value.wf());
            }
            merge_config(&mut base.fields[i].value, field.value);
        } else {
            proof {
                before.lemma_docs();
                if before@.contains_key(key) {
                    let j = choose|j: int| 0 <= j < before.fields@.len() && #[trigger] before.fields@[j].key@ == key;
                    assert(before.fields@[j].name() == key);
                }
            }
            base.fields.insert(i, field);
        }
        proof {
            lemma_put(before.fields@, base.fields@, i as int, found);
            lemma_put_docs(before, *base, i as int, found);
            let put_in = base.fields@[i as int].value.doc();
            assert(base.fields@[i as int].key@ == key);
            assert(put_in == (if before@.contains_key(key) {
                merged(before@[key], added)
            } else {
                added
            }));
            assert forall|j: int| 0 <= j < base.fields@.len() implies (#[trigger] base.fields@[j]).value.wf() by {
                if j < i {
                    assert(base.fields@[j] == before.fields@[j]);
                } else if j > i {
                    let skip: int = if found { 1 } else { 0 };
                    assert(base.fields@[j] == before.fields@[j - 1 + skip]);
                }
            }
            assert(next =~= done.insert(key)) by {
                assert forall|k: Seq<char>| next.contains(k) <==> done.insert(key).contains(k) by {
                    if next.contains(k) {
                        let t = choose|t: int| n <= t < all.len() && #[trigger] all[t].key@ == k;
                        if t > n {
                            assert(done.contains(k));
                        }
                    }
                    if done.contains(k) {
                        let t = choose|t: int| n + 1 <= t < all.len() && #[trigger] all[t].key@ == k;
                        assert(all[t].key@ == k);
                    }
                    if k == key {
                        assert(all[n].key@ == k);
                    }
                }
            }
            assert(base@ =~= overlaid(a, b, next));
        }
    }
    proof {
        let done = Set::new(|k: Seq<char>| exists|i: int| 0 <= i < all.len() && #[trigger] all[i].key@ == k);
        let whole = merged(Doc::Object(a), Doc::Object(b));
        assert(whole->Object_0 =~= overlaid(a, b, done));
    }
}

} // verus!
