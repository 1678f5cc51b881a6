//! The order in which names are listed: byte-wise lexicographic order of their
//! UTF-8 encoding, which is the order of `str`.

use vstd::prelude::*;
use vstd::utf8::*;

verus! {

/// The length of the longest common prefix of `a` and `b`.
pub open spec fn common_prefix(a: Seq<u8>, b: Seq<u8>) -> nat
    decreases a.len(),
{
    if a.len() == 0 || b.len() == 0 || a[0] != b[0] {
        0
    } else {
        1 + common_prefix(a.drop_first(), b.drop_first())
    }
}

/// Lexicographic "less than" on byte sequences: at the first place where the
/// two differ, `a` has ended or holds the smaller byte.
pub open spec fn bytes_lt(a: Seq<u8>, b: Seq<u8>) -> bool {
    let p = common_prefix(a, b) as int;
    p < b.len() && (p == a.len() || a[p] < b[p])
}

/// Whether name `a` is listed before name `b`.
#[verifier::opaque]
pub open spec fn name_lt(a: Seq<char>, b: Seq<char>) -> bool {
    bytes_lt(encode_utf8(a), encode_utf8(b))
}

/// Whether `p` is a place up to which `a` and `b` agree and at which they part.
pub open spec fn parts_at(a: Seq<u8>, b: Seq<u8>, p: int) -> bool {
    &&& 0 <= p <= a.len()
    &&& p <= b.len()
    &&& forall|i: int| 0 <= i < p ==> a[i] == b[i]
    &&& (p < a.len() && p < b.len() ==> a[p] != b[p])
}

/// The common prefix is a place where the two sequences part.
pub proof fn lemma_common_prefix_parts(a: Seq<u8>, b: Seq<u8>)
    ensures
        parts_at(a, b, common_prefix(a, b) as int),
    decreases a.len(),
{
    if a.len() == 0 || b.len() == 0 || a[0] != b[0] {
    } else {
        let ta = a.drop_first();
        let tb = b.drop_first();
        lemma_common_prefix_parts(ta, tb);
        assert forall|i: int| 0 <= i < common_prefix(a, b) implies a[i] == b[i] by {
            if i > 0 {
                assert(ta[i - 1] == tb[i - 1]);
            }
        }
        let p = common_prefix(ta, tb) as int;
        if p < ta.len() && p < tb.len() {
            assert(ta[p] == a[p + 1] && tb[p] == b[p + 1]);
        }
    }
}

/// There is only one place where two sequences part.
pub proof fn lemma_parts_at_unique(a: Seq<u8>, b: Seq<u8>, p: int)
    requires
        parts_at(a, b, p),
    ensures
        p == common_prefix(a, b),
{
    lemma_common_prefix_parts(a, b);
    let q = common_prefix(a, b) as int;
    if p < q {
        assert(a[p] == b[p]);
    } else if q < p {
        assert(a[q] == b[q]);
    }
}

/// No sequence is below itself.
pub proof fn lemma_bytes_lt_irreflexive(a: Seq<u8>)
    ensures
        !bytes_lt(a, a),
{
    lemma_parts_at_unique(a, a, a.len() as int);
}

/// Of two sequences at most one is below the other.
pub proof fn lemma_bytes_lt_asymmetric(a: Seq<u8>, b: Seq<u8>)
    ensures
        !(bytes_lt(a, b) && bytes_lt(b, a)),
{
    lemma_common_prefix_parts(a, b);
    lemma_parts_at_unique(b, a, common_prefix(a, b) as int);
}

/// The order is transitive.
pub proof fn lemma_bytes_lt_transitive(a: Seq<u8>, b: Seq<u8>, c: Seq<u8>)
    requires
        bytes_lt(a, b),
        bytes_lt(b, c),
    ensures
        bytes_lt(a, c),
{
    lemma_common_prefix_parts(a, b);
    lemma_common_prefix_parts(b, c);
    let p = common_prefix(a, b) as int;
    let q = common_prefix(b, c) as int;
    let m = if p <= q { p } else { q };
    assert(parts_at(a, c, m));
    lemma_parts_at_unique(a, c, m);
}

/// Two sequences of which neither is below the other are the same.
pub proof fn lemma_bytes_lt_total(a: Seq<u8>, b: Seq<u8>)
    requires
        !bytes_lt(a, b),
        !bytes_lt(b, a),
    ensures
        a == b,
{
    lemma_common_prefix_parts(a, b);
    lemma_parts_at_unique(b, a, common_prefix(a, b) as int);
    assert(a =~= b);
}

/// No name comes before itself.
pub proof fn lemma_name_lt_irreflexive(a: Seq<char>)
    ensures
        !name_lt(a, a),
{
    reveal(name_lt);
    lemma_bytes_lt_irreflexive(encode_utf8(a));
}

/// Of two names at most one comes before the other.
pub proof fn lemma_name_lt_asymmetric(a: Seq<char>, b: Seq<char>)
    ensures
        !(name_lt(a, b) && name_lt(b, a)),
{
    reveal(name_lt);
    lemma_bytes_lt_asymmetric(encode_utf8(a), encode_utf8(b));
}

/// The order of names is transitive.
pub proof fn lemma_name_lt_transitive(a: Seq<char>, b: Seq<char>, c: Seq<char>)
    requires
        name_lt(a, b),
        name_lt(b, c),
    ensures
        name_lt(a, c),
{
    reveal(name_lt);
    lemma_bytes_lt_transitive(encode_utf8(a), encode_utf8(b), encode_utf8(c));
}

/// Two names of which neither comes before the other are the same name.
pub proof fn lemma_name_lt_total(a: Seq<char>, b: Seq<char>)
    requires
        !name_lt(a, b),
        !name_lt(b, a),
    ensures
        a == b,
{
    reveal(name_lt);
    lemma_bytes_lt_total(encode_utf8(a), encode_utf8(b));
    encode_utf8_decode_utf8(a);
    encode_utf8_decode_utf8(b);
}

/// How two names stand to each other in the listing order.
#[derive(Clone, Copy, Debug, PartialEq, Eq)]
pub enum NameOrder {
    Before,
    Same,
    After,
}

/// What `compare_names` returns for the names `a` and `b`.
pub open spec fn name_order(a: Seq<char>, b: Seq<char>) -> NameOrder {
    if name_lt(a, b) {
        NameOrder::Before
    } else if a == b {
        NameOrder::Same
    } else {
        NameOrder::After
    }
}

/// Compares two names byte by byte, as `str` orders them.
pub fn compare_names(a: &str, b: &str) -> (r: NameOrder)
    ensures
        r == name_order(a@, b@),
        r == NameOrder::After <==> name_lt(b@, a@),
{
    let x = a.as_bytes();
    let y = b.as_bytes();
    let mut i: usize = 0;
    while i < x.len() && i < y.len() && x[i] == y[i]
        invariant
            i <= x@.len(),
            i <= y@.len(),
            forall|j: int| 0 <= j < i ==> x@[j] == y@[j],
        decreases x@.len() - i,
    {
        i += 1;
    }
    proof {
        reveal(name_lt);
        lemma_parts_at_unique(x@, y@, i as int);
        lemma_parts_at_unique(y@, x@, i as int);
        if !bytes_lt(x@, y@) && !bytes_lt(y@, x@) {
            lemma_name_lt_total(a@, b@);
        }
        lemma_name_lt_irreflexive(a@);
    }
    if i < y.len() && (i == x.len() || x[i] < y[i]) {
        NameOrder::Before
    } else if i < x.len() {
        NameOrder::After
    } else {
        NameOrder::Same
    }
}

/// The views of a sequence of strings.
pub open spec fn texts(s: Seq<String>) -> Seq<Seq<char>> {
    s.map_values(|t: String| t@)
}

/// A thing that is kept and found by its name.
pub trait Named {
    /// The name.
    spec fn name(&self) -> Seq<char>;

    /// The name, to compare it.
    fn name_str(&self) -> (s: &str)
        ensures
            s@ == self.name(),
    ;
}

/// Whether the names of `s` strictly ascend in the listing order.
pub open spec fn names_ascend<T: Named>(s: Seq<T>) -> bool {
    forall|i: int, j: int| 0 <= i < j < s.len() ==> name_lt(#[trigger] s[i].name(), #[trigger] s[j].name())
}

/// Where `name` stands in `v`, whose names ascend, and whether it is there:
/// all names before that place come before `name`, all names after it come
/// after `name`.
pub fn position<T: Named>(v: &Vec<T>, name: &str) -> (r: (usize, bool))
    requires
        names_ascend(v@),
    ensures
        r.0 <= v@.len(),
        forall|j: int| 0 <= j < r.0 ==> name_lt(#[trigger] v@[j].name(), name@),
        r.1 ==> r.0 < v@.len() && v@[r.0 as int].name() == name@,
        !r.1 ==> forall|j: int| r.0 <= j < v@.len() ==> name_lt(name@, #[trigger] v@[j].name()),
        r.1 ==> forall|j: int| r.0 < j < v@.len() ==> name_lt(name@, #[trigger] v@[j].name()),
        !r.1 ==> forall|j: int| 0 <= j < v@.len() ==> #[trigger] v@[j].name() != name@,
{
    let mut lo: usize = 0;
    let mut hi: usize = v.len();
    while lo < hi
        invariant
            names_ascend(v@),
            lo <= hi <= v@.len(),
            forall|j: int| 0 <= j < lo ==> name_lt(#[trigger] v@[j].name(), name@),
            forall|j: int| hi <= j < v@.len() ==> name_lt(name@, #[trigger] v@[j].name()),
        decreases hi - lo,
    {
        let mid: usize = lo + (hi - lo) / 2;
        let ghost at_mid = v@[mid as int].name();
        match compare_names(v[mid].name_str(), name) {
            NameOrder::Before => {
                proof {
                    assert forall|j: int| 0 <= j < mid + 1 implies name_lt(#[trigger] v@[j].name(), name@) by {
                        if j < mid {
                            lemma_name_lt_transitive(v@[j].name(), at_mid, name@);
                        }
                    }
                }
                lo = mid + 1;
            },
            NameOrder::After => {
                proof {
                    assert forall|j: int| mid <= j < v@.len() implies name_lt(name@, #[trigger] v@[j].name()) by {
                        if mid < j {
                            lemma_name_lt_transitive(name@, at_mid, v@[j].name());
                        }
                    }
                }
                hi = mid;
            },
            NameOrder::Same => {
                return (mid, true);
            },
        }
    }
    proof {
        assert forall|j: int| 0 <= j < v@.len() implies #[trigger] v@[j].name() != name@ by {
            lemma_name_lt_irreflexive(name@);
        }
    }
    (lo, false)
}

} // verus!
