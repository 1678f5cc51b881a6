//! Which sites can be enabled and which can be disabled, computed from the
//! scans of the two directories, and the listings that the menus show.

use vstd::prelude::*;
use crate::order::{name_lt, texts};
use crate::sites::{ascending, lists, views, FileData, FileDataView, SiteSet};

verus! {

/// The entries of `m` that `keep` holds of.
pub open spec fn kept(
    m: Map<Seq<char>, FileDataView>,
    keep: spec_fn(FileDataView) -> bool,
) -> Map<Seq<char>, FileDataView> {
    Map::new(|k: Seq<char>| m.contains_key(k) && keep(m[k]), |k: Seq<char>| m[k])
}

/// Whether a site may be offered for enabling: nothing stands under its name
/// in the enabled set, or what stands there is not a symlink.
pub open spec fn can_enable(site: FileDataView, enabled: Map<Seq<char>, FileDataView>) -> bool {
    !enabled.contains_key(site.file_name) || !enabled[site.file_name].is_symlink
}

/// The available sites that may be offered for enabling.
pub open spec fn enable_candidates_of(
    available: Map<Seq<char>, FileDataView>,
    enabled: Map<Seq<char>, FileDataView>,
) -> Map<Seq<char>, FileDataView> {
    kept(available, |site: FileDataView| can_enable(site, enabled))
}

/// The enabled entries that may be offered for disabling: the symlinks.
pub open spec fn disable_candidates_of(enabled: Map<Seq<char>, FileDataView>) -> Map<
    Seq<char>,
    FileDataView,
> {
    kept(enabled, |site: FileDataView| site.is_symlink)
}

/// Whether `r` holds, in their order, the entries among the first `i` of `s`
/// that `keep` holds of.
spec fn keeps(
    r: Seq<FileDataView>,
    s: Seq<FileDataView>,
    i: int,
    keep: spec_fn(FileDataView) -> bool,
) -> bool {
    &&& ascending(r)
    &&& forall|j: int| 0 <= j < r.len() ==> s.take(i).contains(#[trigger] r[j]) && keep(r[j])
    &&& forall|t: int| 0 <= t < i && keep(#[trigger] s[t]) ==> r.contains(s[t])
}

proof fn lemma_keeps_step(
    r: Seq<FileDataView>,
    s: Seq<FileDataView>,
    i: int,
    keep: spec_fn(FileDataView) -> bool,
)
    requires
        ascending(s),
        keeps(r, s, i, keep),
        0 <= i < s.len(),
    ensures
        keep(s[i]) ==> keeps(r.push(s[i]), s, i + 1, keep),
        !keep(s[i]) ==> keeps(r, s, i + 1, keep),
{
    assert forall|x: FileDataView| s.take(i).contains(x) implies s.take(i + 1).contains(x) by {
        let t = choose|t: int| 0 <= t < s.take(i).len() && s.take(i)[t] == x;
        assert(s.take(i + 1)[t] == x);
    }
    if keep(s[i]) {
        let n = r.push(s[i]);
        assert forall|a: int, b: int| 0 <= a < b < n.len() implies name_lt(#[trigger] n[a].file_name, #[trigger] n[b].file_name) by {
            if b == r.len() {
                assert(s.take(i).contains(r[a]));
                let t = choose|t: int| 0 <= t < s.take(i).len() && s.take(i)[t] == r[a];
                assert(name_lt(s[t].file_name, s[i].file_name));
                assert(n[a] == r[a]);
            } else {
                assert(n[a] == r[a] && n[b] == r[b]);
            }
        }
        assert forall|j: int| 0 <= j < n.len() implies s.take(i + 1).contains(#[trigger] n[j]) && keep(n[j]) by {
            if j < r.len() {
                assert(n[j] == r[j]);
            } else {
                assert(s.take(i + 1)[i] == n[j]);
            }
        }
        assert forall|t: int| 0 <= t < i + 1 && keep(#[trigger] s[t]) implies n.contains(s[t]) by {
            if t < i {
                let j = choose|j: int| 0 <= j < r.len() && r[j] == s[t];
                assert(n[j] == s[t]);
            } else {
                assert(n[r.len() as int] == s[t]);
            }
        }
    }
}

proof fn lemma_keeps_lists(
    r: Seq<FileDataView>,
    s: Seq<FileDataView>,
    m: Map<Seq<char>, FileDataView>,
    keep: spec_fn(FileDataView) -> bool,
)
    requires
        lists(s, m),
        keeps(r, s, s.len() as int, keep),
    ensures
        lists(r, kept(m, keep)),
{
    let km = kept(m, keep);
    assert(s.take(s.len() as int) =~= s);
    assert forall|j: int| 0 <= j < r.len() implies km.contains_key(#[trigger] r[j].file_name) && km[r[j].file_name] == r[j] by {
        assert(s.contains(r[j]));
        let t = choose|t: int| 0 <= t < s.len() && s[t] == r[j];
        assert(m.contains_key(s[t].file_name) && m[s[t].file_name] == s[t]);
    }
    assert forall|k: Seq<char>| km.contains_key(k) implies exists|j: int| 0 <= j < r.len() && #[trigger] r[j].file_name == k by {
        let t = choose|t: int| 0 <= t < s.len() && #[trigger] s[t].file_name == k;
        assert(m[s[t].file_name] == s[t]);
        assert(keep(s[t]));
        let j = choose|j: int| 0 <= j < r.len() && r[j] == s[t];
        assert(r[j].file_name == k);
    }
}

/// The sites that can be enabled, in ascending order of their names: each
/// available site that has no symlink under its name in the enabled set.
pub fn enable_candidates(available: &SiteSet, enabled: &SiteSet) -> (r: Vec<FileData>)
    requires
        available.wf(),
        enabled.wf(),
    ensures
        lists(views(r@), enable_candidates_of(available@, enabled@)),
{
    let all = available.entries();
    let ghost keep = |site: FileDataView| can_enable(site, enabled@);
    let mut r: Vec<FileData> = Vec::new();
    let mut i: usize = 0;
    while i < all.len()
        invariant
            i <= all@.len(),
            enabled.wf(),
            lists(views(all@), available@),
            keep == (|site: FileDataView| can_enable(site, enabled@)),
            keeps(views(r@), views(all@), i as int, keep),
        decreases all@.len() - i,
    {
        let site = &all[i];
        let offered = match enabled.get(site.file_name.as_str()) {
            Some(entry) => !entry.is_symlink,
            None => true,
        };
        proof {
            lemma_keeps_step(views(r@), views(all@), i as int, keep);
            assert(offered == keep(views(all@)[i as int]));
        }
        if offered {
            let ghost before = views(r@);
            r.push(site.clone());
            assert(views(r@) =~= before.push(views(all@)[i as int]));
        }
        i += 1;
    }
    proof {
        lemma_keeps_lists(views(r@), views(all@), available@, keep);
    }
    r
}

/// The sites that can be disabled, in ascending order of their names: each
/// symlink of the enabled set.
pub fn disable_candidates(enabled: &SiteSet) -> (r: Vec<FileData>)
    requires
        enabled.wf(),
    ensures
        lists(views(r@), disable_candidates_of(enabled@)),
{
    let all = enabled.entries();
    let ghost keep = |site: FileDataView| site.is_symlink;
    let mut r: Vec<FileData> = Vec::new();
    let mut i: usize = 0;
    while i < all.len()
        invariant
            i <= all@.len(),
            lists(views(all@), enabled@),
            keep == (|site: FileDataView| site.is_symlink),
            keeps(views(r@), views(all@), i as int, keep),
        decreases all@.len() - i,
    {
        let site = &all[i];
        proof {
            lemma_keeps_step(views(r@), views(all@), i as int, keep);
            assert(site.is_symlink == keep(views(all@)[i as int]));
        }
        if site.is_symlink {
            let ghost before = views(r@);
            r.push(site.clone());
            assert(views(r@) =~= before.push(views(all@)[i as int]));
        }
        i += 1;
    }
    proof {
        lemma_keeps_lists(views(r@), views(all@), enabled@, keep);
    }
    r
}

/// The list to pick from, or nothing where the list is empty.
fn offer(list: Vec<FileData>) -> (r: Option<Vec<FileData>>)
    ensures
        r == (if list@.len() == 0 {
            None
        } else {
            Some(list)
        }),
{
    if list.len() == 0 {
        None
    } else {
        Some(list)
    }
}

/// What is offered for enabling: the sites that can be enabled, in ascending
/// order of their names, or nothing where every site is enabled.
pub fn ng_enable_site(available: &SiteSet, enabled: &SiteSet) -> (r: Option<Vec<FileData>>)
    requires
        available.wf(),
        enabled.wf(),
    ensures
        match r {
            Some(list) => list@.len() > 0 && lists(views(list@), enable_candidates_of(available@, enabled@)),
            None => lists(Seq::empty(), enable_candidates_of(available@, enabled@)),
        },
{
    let list = enable_candidates(available, enabled);
    proof {
        if list@.len() == 0 {
            assert(views(list@) =~= Seq::empty());
        }
    }
    offer(list)
}

/// What is offered for disabling: the sites that can be disabled, in
/// ascending order of their names, or nothing where every site is disabled.
pub fn ng_disable_site(enabled: &SiteSet) -> (r: Option<Vec<FileData>>)
    requires
        enabled.wf(),
    ensures
        match r {
            Some(list) => list@.len() > 0 && lists(views(list@), disable_candidates_of(enabled@)),
            None => lists(Seq::empty(), disable_candidates_of(enabled@)),
        },
{
    let list = disable_candidates(enabled);
    proof {
        if list@.len() == 0 {
            assert(views(list@) =~= Seq::empty());
        }
    }
    offer(list)
}

/// The log files of a scan of the log directory, in ascending order of their
/// names.
pub fn get_site_logs(logs: &SiteSet) -> (r: Vec<FileData>)
    requires
        logs.wf(),
    ensures
        lists(views(r@), logs@),
{
    logs.entries()
}

/// What is offered for viewing or editing: every entry of the scan, in
/// ascending order of the names, or nothing where there is none.
pub fn offer_all(found: &SiteSet) -> (r: Option<Vec<FileData>>)
    requires
        found.wf(),
    ensures
        match r {
            Some(list) => list@.len() > 0 && lists(views(list@), found@),
            None => lists(Seq::empty(), found@),
        },
{
    let list = found.entries();
    proof {
        if list@.len() == 0 {
            assert(views(list@) =~= Seq::empty());
        }
    }
    offer(list)
}

/// The sites offered for editing.
pub fn ng_edit_site(available: &SiteSet) -> (r: Option<Vec<FileData>>)
    requires
        available.wf(),
    ensures
        match r {
            Some(list) => list@.len() > 0 && lists(views(list@), available@),
            None => lists(Seq::empty(), available@),
        },
{
    offer_all(available)
}

/// The sites offered for viewing.
pub fn ng_view_site(available: &SiteSet) -> (r: Option<Vec<FileData>>)
    requires
        available.wf(),
    ensures
        match r {
            Some(list) => list@.len() > 0 && lists(views(list@), available@),
            None => lists(Seq::empty(), available@),
        },
{
    offer_all(available)
}

/// The log files offered for viewing.
pub fn ng_view_logs(logs: &SiteSet) -> (r: Option<Vec<FileData>>)
    requires
        logs.wf(),
    ensures
        match r {
            Some(list) => list@.len() > 0 && lists(views(list@), logs@),
            None => lists(Seq::empty(), logs@),
        },
{
    offer(get_site_logs(logs))
}

/// The names picked out of `list` by their places, or nothing where a place
/// lies outside the list.
pub open spec fn picked_names(list: Seq<FileDataView>, places: Seq<usize>) -> Option<Seq<Seq<char>>> {
    if forall|i: int| 0 <= i < places.len() ==> #[trigger] places[i] < list.len() {
        Some(Seq::new(places.len(), |i: int| list[places[i] as int].file_name))
    } else {
        None
    }
}

/// The names of the entries that the user picked, in the order of the picks.
pub fn picked(list: &Vec<FileData>, places: &Vec<usize>) -> (r: Option<Vec<String>>)
    ensures
        match r {
            Some(names) => picked_names(views(list@), places@) == Some(texts(names@)),
            None => picked_names(views(list@), places@) is None,
        },
{
    let mut names: Vec<String> = Vec::new();
    let mut i: usize = 0;
    while i < places.len()
        invariant
            i <= places@.len(),
            names@.len() == i,
            forall|j: int| 0 <= j < i ==> #[trigger] places@[j] < list@.len(),
            forall|j: int| 0 <= j < i ==> (#[trigger] names@[j])@ == list@[places@[j] as int].file_name@,
        decreases places@.len() - i,
    {
        let place = places[i];
        if place >= list.len() {
            return None;
        }
        names.push(list[place].file_name.clone());
        i += 1;
    }
    proof {
        assert(texts(names@) =~= Seq::new(
            places@.len(),
            |i: int| views(list@)[places@[i] as int].file_name,
        ));
    }
    Some(names)
}

} // verus!
