//! The entries of a scanned directory, kept as a set keyed by file name.

use vstd::prelude::*;
use crate::order::{name_lt, position, Named};
use crate::order::{lemma_name_lt_asymmetric, lemma_name_lt_irreflexive, lemma_name_lt_transitive};

verus! {

/// One file or symlink found under a scanned directory.
#[derive(Debug, PartialEq, Eq)]
pub struct FileData {
    pub file_name: String,
    pub file_path: String,
    pub is_symlink: bool,
}

/// What a `FileData` stands for in contracts.
pub struct FileDataView {
    pub file_name: Seq<char>,
    pub file_path: Seq<char>,
    pub is_symlink: bool,
}

impl View for FileData {
    type V = FileDataView;

    open spec fn view(&self) -> FileDataView {
        FileDataView {
            file_name: self.file_name@,
            file_path: self.file_path@,
            is_symlink: self.is_symlink,
        }
    }
}

impl Named for FileData {
    open spec fn name(&self) -> Seq<char> {
        self.file_name@
    }

    fn name_str(&self) -> (s: &str) {
        self.file_name.as_str()
    }
}

impl Clone for FileData {
    fn clone(&self) -> (r: Self)
        ensures
            r@ == self@,
    {
        FileData {
            file_name: self.file_name.clone(),
            file_path: self.file_path.clone(),
            is_symlink: self.is_symlink,
        }
    }
}

/// The views of a sequence of entries.
pub open spec fn views(s: Seq<FileData>) -> Seq<FileDataView> {
    s.map_values(|d: FileData| d@)
}

/// Whether the names of `s` strictly ascend in the listing order.
pub open spec fn ascending(s: Seq<FileDataView>) -> bool {
    forall|i: int, j: int| 0 <= i < j < s.len() ==> name_lt(#[trigger] s[i].file_name, #[trigger] s[j].file_name)
}

/// Whether `s` lists the entries of `m`: each entry of `m` once, under its own
/// name, in ascending order of the names.
pub open spec fn lists(s: Seq<FileDataView>, m: Map<Seq<char>, FileDataView>) -> bool {
    &&& ascending(s)
    &&& forall|i: int| 0 <= i < s.len() ==> m.contains_key(#[trigger] s[i].file_name) && m[s[i].file_name] == s[i]
    &&& forall|k: Seq<char>| m.contains_key(k) ==> exists|i: int| 0 <= i < s.len() && #[trigger] s[i].file_name == k
}

/// The set of entries that `s` lists, each under its name.
pub open spec fn listed(s: Seq<FileDataView>) -> Map<Seq<char>, FileDataView> {
    Map::new(
        |k: Seq<char>| exists|i: int| 0 <= i < s.len() && #[trigger] s[i].file_name == k,
        |k: Seq<char>| s[choose|i: int| 0 <= i < s.len() && #[trigger] s[i].file_name == k],
    )
}

/// An ascending sequence lists the set that it holds.
pub proof fn lemma_listed_lists(s: Seq<FileDataView>)
    requires
        ascending(s),
    ensures
        lists(s, listed(s)),
        listed(s).dom().finite(),
        listed(s).len() == s.len(),
    decreases s.len(),
{
    let m = listed(s);
    assert forall|i: int| 0 <= i < s.len() implies m.contains_key(#[trigger] s[i].file_name) && m[s[i].file_name] == s[i] by {
        let j = choose|j: int| 0 <= j < s.len() && #[trigger] s[j].file_name == s[i].file_name;
        lemma_name_lt_irreflexive(s[i].file_name);
        if i < j {
            assert(name_lt(s[i].file_name, s[j].file_name));
        } else if j < i {
            assert(name_lt(s[j].file_name, s[i].file_name));
        }
    }
    if s.len() == 0 {
        assert(m.dom() =~= Set::empty());
    } else {
        let t = s.drop_last();
        assert forall|i: int, j: int| 0 <= i < j < t.len() implies name_lt(#[trigger] t[i].file_name, #[trigger] t[j].file_name) by {
            assert(t[i] == s[i] && t[j] == s[j]);
        }
        lemma_listed_lists(t);
        let last = s.last().file_name;
        assert(!listed(t).contains_key(last)) by {
            if listed(t).contains_key(last) {
                let i = choose|i: int| 0 <= i < t.len() && #[trigger] t[i].file_name == last;
                assert(t[i] == s[i]);
                assert(name_lt(s[i].file_name, s[s.len() - 1].file_name));
                lemma_name_lt_irreflexive(last);
            }
        }
        assert(m.dom() =~= listed(t).dom().insert(last)) by {
            assert forall|k: Seq<char>| m.dom().contains(k) <==> listed(t).dom().insert(last).contains(k) by {
                if m.dom().contains(k) {
                    let i = choose|i: int| 0 <= i < s.len() && #[trigger] s[i].file_name == k;
                    if i < t.len() {
                        assert(t[i].file_name == k);
                    }
                }
                if listed(t).dom().contains(k) {
                    let i = choose|i: int| 0 <= i < t.len() && #[trigger] t[i].file_name == k;
                    assert(s[i].file_name == k);
                }
                if k == last {
                    assert(s[s.len() - 1].file_name == k);
                }
            }
        }
    }
}

/// A set has one listing only.
pub proof fn lemma_lists_unique(
    a: Seq<FileDataView>,
    b: Seq<FileDataView>,
    m: Map<Seq<char>, FileDataView>,
)
    requires
        lists(a, m),
        lists(b, m),
    ensures
        a == b,
    decreases a.len(),
{
    if a.len() == 0 || b.len() == 0 {
        if a.len() > 0 {
            assert(m.contains_key(a[0].file_name));
        }
        if b.len() > 0 {
            assert(m.contains_key(b[0].file_name));
        }
        assert(a =~= b);
    } else {
        // the first of each is the least name of the set
        let i = choose|i: int| 0 <= i < a.len() && #[trigger] a[i].file_name == b[0].file_name;
        let j = choose|j: int| 0 <= j < b.len() && #[trigger] b[j].file_name == a[0].file_name;
        assert(m.contains_key(a[0].file_name) && m.contains_key(b[0].file_name));
        if i > 0 && j > 0 {
            assert(name_lt(a[0].file_name, a[i].file_name));
            assert(name_lt(b[0].file_name, b[j].file_name));
            lemma_name_lt_asymmetric(a[0].file_name, b[0].file_name);
        }
        if i > 0 && j == 0 {
            assert(name_lt(a[0].file_name, a[i].file_name));
            lemma_name_lt_irreflexive(a[0].file_name);
        }
        if j > 0 && i == 0 {
            assert(name_lt(b[0].file_name, b[j].file_name));
            lemma_name_lt_irreflexive(b[0].file_name);
        }
        assert(a[0] == b[0]);
        let rest = m.remove(a[0].file_name);
        lemma_lists_rest(a, m);
        lemma_lists_rest(b, m);
        lemma_lists_unique(a.drop_first(), b.drop_first(), rest);
        assert(a =~= seq![a[0]] + a.drop_first());
        assert(b =~= seq![b[0]] + b.drop_first());
    }
}

/// Without its first entry, a listing lists the set without that entry.
proof fn lemma_lists_rest(a: Seq<FileDataView>, m: Map<Seq<char>, FileDataView>)
    requires
        lists(a, m),
        a.len() > 0,
    ensures
        lists(a.drop_first(), m.remove(a[0].file_name)),
{
    let t = a.drop_first();
    let rest = m.remove(a[0].file_name);
    assert forall|i: int, j: int| 0 <= i < j < t.len() implies name_lt(#[trigger] t[i].file_name, #[trigger] t[j].file_name) by {
        assert(t[i] == a[i + 1] && t[j] == a[j + 1]);
    }
    assert forall|i: int| 0 <= i < t.len() implies rest.contains_key(#[trigger] t[i].file_name) && rest[t[i].file_name] == t[i] by {
        assert(t[i] == a[i + 1]);
        assert(name_lt(a[0].file_name, a[i + 1].file_name));
        lemma_name_lt_irreflexive(a[0].file_name);
    }
    assert forall|k: Seq<char>| rest.contains_key(k) implies exists|i: int| 0 <= i < t.len() && #[trigger] t[i].file_name == k by {
        let i = choose|i: int| 0 <= i < a.len() && #[trigger] a[i].file_name == k;
        assert(t[i - 1].file_name == k);
    }
}

/// A set of directory entries, keyed by file name: no two entries share a name.
#[derive(Debug, PartialEq, Eq)]
pub struct SiteSet {
    entries: Vec<FileData>,
}

impl View for SiteSet {
    type V = Map<Seq<char>, FileDataView>;

    closed spec fn view(&self) -> Map<Seq<char>, FileDataView> {
        listed(views(self.entries@))
    }
}

impl SiteSet {
    /// Whether the set is well formed: every set that this module hands out is.
    pub closed spec fn wf(&self) -> bool {
        ascending(views(self.entries@))
    }

    /// Every entry stands under its own file name, and the entries are
    /// finitely many.
    pub proof fn lemma_keyed(&self)
        requires
            self.wf(),
        ensures
            self@.dom().finite(),
            forall|k: Seq<char>| #[trigger] self@.contains_key(k) ==> self@[k].file_name == k,
    {
        lemma_listed_lists(views(self.entries@));
    }

    /// The empty set.
    pub fn new() -> (r: SiteSet)
        ensures
            r.wf(),
            r@ == Map::<Seq<char>, FileDataView>::empty(),
    {
        let r = SiteSet { entries: Vec::new() };
        assert(r@ =~= Map::<Seq<char>, FileDataView>::empty());
        r
    }

    /// The number of entries.
    pub fn len(&self) -> (n: usize)
        requires
            self.wf(),
        ensures
            self@.dom().finite(),
            n == self@.len(),
    {
        proof {
            lemma_listed_lists(views(self.entries@));
        }
        self.entries.len()
    }

    /// Whether the set holds no entry.
    pub fn is_empty(&self) -> (r: bool)
        requires
            self.wf(),
        ensures
            r == (self@ == Map::<Seq<char>, FileDataView>::empty()),
    {
        proof {
            lemma_listed_lists(views(self.entries@));
            if self.entries@.len() == 0 {
                assert(self@ =~= Map::<Seq<char>, FileDataView>::empty());
            } else {
                assert(self@.contains_key(views(self.entries@)[0].file_name));
            }
        }
        self.entries.len() == 0
    }

    /// Where `name` stands among the entries, or where it would be put.
    fn position(&self, name: &str) -> (r: (usize, bool))
        requires
            self.wf(),
        ensures
            r.0 <= self.entries@.len(),
            forall|j: int| 0 <= j < r.0 ==> name_lt(#[trigger] self.entries@[j].file_name@, name@),
            forall|j: int| r.0 + (if r.1 { 1int } else { 0int }) <= j < self.entries@.len() ==> name_lt(name@, #[trigger] self.entries@[j].file_name@),
            r.1 ==> r.0 < self.entries@.len() && self.entries@[r.0 as int].file_name@ == name@,
    {
        proof {
            let s = views(self.entries@);
            assert forall|i: int, j: int| 0 <= i < j < self.entries@.len() implies name_lt(
                #[trigger] self.entries@[i].name(),
                #[trigger] self.entries@[j].name(),
            ) by {
                assert(name_lt(s[i].file_name, s[j].file_name));
            }
        }
        let r = position(&self.entries, name);
        proof {
            assert forall|j: int| 0 <= j < r.0 implies name_lt(#[trigger] self.entries@[j].file_name@, name@) by {
                assert(name_lt(self.entries@[j].name(), name@));
            }
            assert forall|j: int| r.0 + (if r.1 { 1int } else { 0int }) <= j < self.entries@.len() implies name_lt(name@, #[trigger] self.entries@[j].file_name@) by {
                assert(name_lt(name@, self.entries@[j].name()));
            }
        }
        r
    }

    /// The entry under `name`, if there is one.
    pub fn get(&self, name: &str) -> (r: Option<&FileData>)
        requires
            self.wf(),
        ensures
            match r {
                Some(d) => self@.contains_key(name@) && d@ == self@[name@],
                None => !self@.contains_key(name@),
            },
    {
        proof {
            lemma_listed_lists(views(self.entries@));
        }
        let ghost s = views(self.entries@);
        let (i, found) = self.position(name);
        if found {
            assert(s[i as int].file_name == name@);
            Some(&self.entries[i])
        } else {
            proof {
                if self@.contains_key(name@) {
                    let j = choose|j: int| 0 <= j < s.len() && #[trigger] s[j].file_name == name@;
                    assert(self.entries@[j].file_name@ == name@);
                    lemma_name_lt_irreflexive(name@);
                }
            }
            None
        }
    }

    /// Puts `data` into the set under its file name, in place of an entry that
    /// stood under that name before.
    pub fn insert(&mut self, data: FileData)
        requires
            old(self).wf(),
        ensures
            final(self).wf(),
            final(self)@ == old(self)@.insert(data.file_name@, data@),
    {
        proof {
            lemma_listed_lists(views(self.entries@));
        }
        let ghost before = views(self.entries@);
        let (i, found) = self.position(data.file_name.as_str());
        if found {
            self.entries[i] = data;
        } else {
            self.entries.insert(i, data);
        }
        proof {
            let after = views(self.entries@);
            let name = data.file_name@;
            let skip: int = if found { 1 } else { 0 };
            assert(after.len() == before.len() + 1 - skip);
            assert forall|j: int| 0 <= j < after.len() implies #[trigger] after[j] == (if j < i {
                before[j]
            } else if j == i {
                data@
            } else {
                before[j - 1 + skip]
            }) by {}
            assert forall|a: int, b: int| 0 <= a < b < after.len() implies name_lt(#[trigger] after[a].file_name, #[trigger] after[b].file_name) by {
                if a < i && b > i {
                    lemma_name_lt_transitive(after[a].file_name, name, after[b].file_name);
                }
            }
            lemma_listed_lists(after);
            let m = old(self)@.insert(name, data@);
            assert forall|k: Seq<char>| #[trigger] m.contains_key(k) implies listed(after).contains_key(k) && listed(after)[k] == m[k] by {
                if k == name {
                    assert(after[i as int].file_name == k);
                } else {
                    let j = choose|j: int| 0 <= j < before.len() && #[trigger] before[j].file_name == k;
                    let t = if j < i { j } else { j + 1 - skip };
                    assert(after[t].file_name == k);
                }
            }
            assert forall|k: Seq<char>| #[trigger] listed(after).contains_key(k) implies m.contains_key(k) by {
                let j = choose|j: int| 0 <= j < after.len() && #[trigger] after[j].file_name == k;
                if j < i {
                    assert(before[j].file_name == k);
                } else if j > i {
                    assert(before[j - 1 + skip].file_name == k);
                }
            }
            assert(listed(after).dom() =~= m.dom());
            assert(listed(after) =~= m);
        }
    }

    /// The entries in ascending order of their names.
    pub fn entries(&self) -> (r: Vec<FileData>)
        requires
            self.wf(),
        ensures
            lists(views(r@), self@),
    {
        proof {
            lemma_listed_lists(views(self.entries@));
        }
        let mut r: Vec<FileData> = Vec::new();
        let mut i: usize = 0;
        while i < self.entries.len()
            invariant
                i <= self.entries@.len(),
                r@.len() == i,
                forall|j: int| 0 <= j < i ==> (#[trigger] r@[j])@ == self.entries@[j]@,
            decreases self.entries@.len() - i,
        {
            r.push(self.entries[i].clone());
            i += 1;
        }
        proof {
            assert(views(r@) =~= views(self.entries@));
        }
        r
    }

    /// Whether there is an entry under `name`.
    pub fn contains(&self, name: &str) -> (r: bool)
        requires
            self.wf(),
        ensures
            r == self@.contains_key(name@),
    {
        self.get(name).is_some()
    }
}

/// One entry as a walk of a directory hands it over, directories included.
#[derive(Debug, PartialEq, Eq)]
pub struct WalkEntry {
    pub file_name: String,
    pub file_path: String,
    /// Whether the entry is a symlink, whatever it points to.
    pub is_symlink: bool,
    /// Whether the entry's path leads to a directory: the entry is one, or it
    /// is a symlink that points to one.
    pub is_dir: bool,
}

/// What a `WalkEntry` stands for in contracts.
pub struct WalkEntryView {
    pub file_name: Seq<char>,
    pub file_path: Seq<char>,
    pub is_symlink: bool,
    pub is_dir: bool,
}

impl WalkEntryView {
    /// Whether the entry is a directory itself, and no symlink to one.
    pub open spec fn is_directory(self) -> bool {
        self.is_dir && !self.is_symlink
    }

    /// The entry as the set keeps it.
    pub open spec fn data(self) -> FileDataView {
        FileDataView {
            file_name: self.file_name,
            file_path: self.file_path,
            is_symlink: self.is_symlink,
        }
    }
}

impl View for WalkEntry {
    type V = WalkEntryView;

    open spec fn view(&self) -> WalkEntryView {
        WalkEntryView {
            file_name: self.file_name@,
            file_path: self.file_path@,
            is_symlink: self.is_symlink,
            is_dir: self.is_dir,
        }
    }
}

impl WalkEntry {
    /// Whether the entry is a directory itself, and no symlink to one.
    pub fn is_directory(&self) -> (r: bool)
        ensures
            r == self@.is_directory(),
    {
        self.is_dir && !self.is_symlink
    }
}

/// The views of a sequence of walked entries.
pub open spec fn walk_views(s: Seq<WalkEntry>) -> Seq<WalkEntryView> {
    s.map_values(|e: WalkEntry| e@)
}

/// The set that a walk yields: what is a directory itself is left out, every
/// file and every symlink is kept with its tag, whatever the symlink points
/// to, and of two entries under one name the later one stays.
pub open spec fn collected(entries: Seq<WalkEntryView>) -> Map<Seq<char>, FileDataView>
    decreases entries.len(),
{
    if entries.len() == 0 {
        Map::empty()
    } else {
        let rest = collected(entries.drop_last());
        let e = entries.last();
        if e.is_directory() {
            rest
        } else {
            rest.insert(e.file_name, e.data())
        }
    }
}

/// Whether no two files or symlinks of the walk share a name.
pub open spec fn distinct_names(entries: Seq<WalkEntryView>) -> bool {
    forall|i: int, j: int|
        0 <= i < j < entries.len() && !(#[trigger] entries[i]).is_directory() && !(#[trigger] entries[j]).is_directory()
            ==> entries[i].file_name != entries[j].file_name
}

/// Whether the walk met nothing that is a directory itself: files and
/// symlinks only, a symlink to a directory among them.
pub open spec fn no_directories(entries: Seq<WalkEntryView>) -> bool {
    forall|i: int| 0 <= i < entries.len() ==> !(#[trigger] entries[i]).is_directory()
}

/// The set of a walk has an entry under exactly the names of the files and
/// symlinks walked, and under each name the last one walked.
pub proof fn lemma_collected_entries(entries: Seq<WalkEntryView>)
    ensures
        collected(entries).dom().finite(),
        collected(entries).len() <= entries.len(),
        forall|k: Seq<char>| #[trigger]
            collected(entries).contains_key(k) <==> exists|i: int|
                0 <= i < entries.len() && !(#[trigger] entries[i]).is_directory() && entries[i].file_name == k,
        forall|i: int|
            0 <= i < entries.len() && !(#[trigger] entries[i]).is_directory() && (forall|j: int|
                i < j < entries.len() && !(#[trigger] entries[j]).is_directory() ==> entries[j].file_name
                    != entries[i].file_name) ==> collected(entries)[entries[i].file_name]
                == entries[i].data(),
    decreases entries.len(),
{
    if entries.len() > 0 {
        let front = entries.drop_last();
        let e = entries.last();
        lemma_collected_entries(front);
        assert forall|k: Seq<char>| #[trigger]
            collected(entries).contains_key(k) <==> exists|i: int|
                0 <= i < entries.len() && !(#[trigger] entries[i]).is_directory() && entries[i].file_name == k by {
            if collected(front).contains_key(k) {
                let i = choose|i: int| 0 <= i < front.len() && !(#[trigger] front[i]).is_directory() && front[i].file_name == k;
                assert(!entries[i].is_directory() && entries[i].file_name == k);
            }
            if exists|i: int| 0 <= i < entries.len() && !(#[trigger] entries[i]).is_directory() && entries[i].file_name == k {
                let i = choose|i: int| 0 <= i < entries.len() && !(#[trigger] entries[i]).is_directory() && entries[i].file_name == k;
                if i < front.len() {
                    assert(!front[i].is_directory() && front[i].file_name == k);
                }
            }
        }
        assert forall|i: int|
            0 <= i < entries.len() && !(#[trigger] entries[i]).is_directory() && (forall|j: int|
                i < j < entries.len() && !(#[trigger] entries[j]).is_directory() ==> entries[j].file_name
                    != entries[i].file_name) implies collected(entries)[entries[i].file_name]
            == entries[i].data() by {
            if i < front.len() {
                assert(front[i] == entries[i]);
                assert forall|j: int| i < j < front.len() && !(#[trigger] front[j]).is_directory() implies front[j].file_name
                    != front[i].file_name by {
                    assert(front[j] == entries[j]);
                }
                assert(e == entries[entries.len() - 1]);
            }
        }
    }
}

/// Every entry of the set of a walk stands under its own file name.
pub proof fn lemma_collected_keyed(entries: Seq<WalkEntryView>)
    ensures
        forall|k: Seq<char>| #[trigger]
            collected(entries).contains_key(k) ==> collected(entries)[k].file_name == k,
    decreases entries.len(),
{
    if entries.len() > 0 {
        let rest = collected(entries.drop_last());
        lemma_collected_keyed(entries.drop_last());
        assert forall|k: Seq<char>| #[trigger] collected(entries).contains_key(k) implies collected(
            entries,
        )[k].file_name == k by {
            if k != entries.last().file_name || entries.last().is_directory() {
                assert(rest.contains_key(k));
            }
        }
    }
}

/// A walk that meets files and symlinks only, each under a name of its own,
/// yields a set with one entry for each, tagged as the walk found it.
pub proof fn lemma_walk_reports_every_entry(entries: Seq<WalkEntryView>)
    requires
        no_directories(entries),
        distinct_names(entries),
    ensures
        collected(entries).dom().finite(),
        collected(entries).len() == entries.len(),
        forall|i: int|
            0 <= i < entries.len() ==> collected(entries).contains_key(#[trigger] entries[i].file_name)
                && collected(entries)[entries[i].file_name] == entries[i].data(),
    decreases entries.len(),
{
    lemma_collected_entries(entries);
    if entries.len() > 0 {
        let front = entries.drop_last();
        let e = entries.last();
        assert forall|i: int| 0 <= i < front.len() implies !(#[trigger] front[i]).is_directory() by {
            assert(front[i] == entries[i]);
        }
        assert forall|i: int, j: int|
            0 <= i < j < front.len() && !(#[trigger] front[i]).is_directory() && !(#[trigger] front[j]).is_directory() implies front[i].file_name
            != front[j].file_name by {
            assert(front[i] == entries[i] && front[j] == entries[j]);
        }
        lemma_walk_reports_every_entry(front);
        lemma_collected_entries(front);
        assert(!collected(front).contains_key(e.file_name)) by {
            if collected(front).contains_key(e.file_name) {
                let i = choose|i: int| 0 <= i < front.len() && !(#[trigger] front[i]).is_directory() && front[i].file_name == e.file_name;
                assert(front[i] == entries[i]);
                assert(e == entries[entries.len() - 1]);
            }
        }
        assert(!e.is_directory());
    }
    assert forall|i: int| 0 <= i < entries.len() implies collected(entries).contains_key(#[trigger] entries[i].file_name)
        && collected(entries)[entries[i].file_name] == entries[i].data() by {
        assert(!entries[i].is_directory());
    }
}

/// Two walks that meet the same entries, in whatever order, yield the same set.
pub proof fn lemma_walk_order_irrelevant(a: Seq<WalkEntryView>, b: Seq<WalkEntryView>)
    requires
        distinct_names(a),
        distinct_names(b),
        forall|e: WalkEntryView| a.contains(e) <==> b.contains(e),
    ensures
        collected(a) == collected(b),
{
    lemma_collected_entries(a);
    lemma_collected_entries(b);
    lemma_collected_of_member(a, b);
    lemma_collected_of_member(b, a);
    assert(collected(a).dom() =~= collected(b).dom());
    assert(collected(a) =~= collected(b));
}

/// Each entry of the set of walk `a` stands in the set of walk `b` as well,
/// where `b` met all that `a` met.
proof fn lemma_collected_of_member(a: Seq<WalkEntryView>, b: Seq<WalkEntryView>)
    requires
        distinct_names(a),
        distinct_names(b),
        forall|e: WalkEntryView| a.contains(e) ==> b.contains(e),
    ensures
        forall|k: Seq<char>| #[trigger]
            collected(a).contains_key(k) ==> collected(b).contains_key(k) && collected(b)[k]
                == collected(a)[k],
{
    lemma_collected_entries(a);
    lemma_collected_entries(b);
    assert forall|k: Seq<char>| #[trigger] collected(a).contains_key(k) implies collected(b).contains_key(k)
        && collected(b)[k] == collected(a)[k] by {
        let i = choose|i: int| 0 <= i < a.len() && !(#[trigger] a[i]).is_directory() && a[i].file_name == k;
        assert(a.contains(a[i]));
        assert(b.contains(a[i]));
        let j = choose|j: int| 0 <= j < b.len() && b[j] == a[i];
        assert(!b[j].is_directory() && b[j].file_name == k);
        assert(collected(a)[a[i].file_name] == a[i].data());
        assert(collected(b)[b[j].file_name] == b[j].data());
    }
}

/// Gathers the files and symlinks of one walk into a set, skipping what is a
/// directory itself.
pub fn walk_folder(entries: &Vec<WalkEntry>) -> (files: SiteSet)
    ensures
        files.wf(),
        files@ == collected(walk_views(entries@)),
{
    let mut files = SiteSet::new();
    let mut i: usize = 0;
    while i < entries.len()
        invariant
            i <= entries@.len(),
            files.wf(),
            files@ == collected(walk_views(entries@).subrange(0, i as int)),
        decreases entries@.len() - i,
    {
        let entry = &entries[i];
        proof {
            let next = walk_views(entries@).subrange(0, i + 1);
            assert(next.drop_last() =~= walk_views(entries@).subrange(0, i as int));
            assert(next.last() == entry@);
        }
        if !entry.is_directory() {
            files.insert(
                FileData {
                    file_name: entry.file_name.clone(),
                    file_path: entry.file_path.clone(),
                    is_symlink: entry.is_symlink,
                },
            );
        }
        i += 1;
    }
    proof {
        assert(walk_views(entries@).subrange(0, i as int) =~= walk_views(entries@));
    }
    files
}

} // verus!
