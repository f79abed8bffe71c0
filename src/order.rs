//! The order in which work on keys is done: by lower-cased name, then by the
//! name as written, then by version, each compared character by character.
use crate::keys::{key_views, CrateKey};
use crate::text::{lower_of, lowercase};
use vstd::prelude::*;
use vstd::string::*;

verus! {

/// `a` comes strictly before `b`, comparing character codes in turn; a proper
/// prefix comes first.
pub open spec fn text_lt(a: Seq<char>, b: Seq<char>) -> bool
    decreases a.len(),
{
    if a.len() == 0 {
        b.len() > 0
    } else if b.len() == 0 {
        false
    } else if a[0] != b[0] {
        (a[0] as int) < (b[0] as int)
    } else {
        text_lt(a.drop_first(), b.drop_first())
    }
}

/// `a` comes strictly before `b` among keys.
pub open spec fn key_lt(a: (Seq<char>, Seq<char>), b: (Seq<char>, Seq<char>)) -> bool {
    ||| text_lt(lower_of(a.0), lower_of(b.0))
    ||| (lower_of(a.0) == lower_of(b.0) && (text_lt(a.0, b.0) || (a.0 == b.0 && text_lt(a.1, b.1))))
}

/// Every key comes strictly before every later one.
pub open spec fn strictly_sorted(s: Seq<(Seq<char>, Seq<char>)>) -> bool {
    forall|i: int, j: int| 0 <= i < j < s.len() ==> key_lt(#[trigger] s[i], #[trigger] s[j])
}

pub proof fn lemma_text_lt_irreflexive(a: Seq<char>)
    ensures
        !text_lt(a, a),
    decreases a.len(),
{
    if a.len() > 0 {
        lemma_text_lt_irreflexive(a.drop_first());
    }
}

pub proof fn lemma_text_lt_transitive(a: Seq<char>, b: Seq<char>, c: Seq<char>)
    requires
        text_lt(a, b),
        text_lt(b, c),
    ensures
        text_lt(a, c),
    decreases a.len(),
{
    if a.len() > 0 && b.len() > 0 && c.len() > 0 && a[0] == b[0] && b[0] == c[0] {
        lemma_text_lt_transitive(a.drop_first(), b.drop_first(), c.drop_first());
    }
}

pub proof fn lemma_text_lt_total(a: Seq<char>, b: Seq<char>)
    requires
        a != b,
    ensures
        text_lt(a, b) || text_lt(b, a),
    decreases a.len(),
{
    if a.len() == 0 && b.len() == 0 {
        assert(a =~= b);
    }
    if a.len() > 0 && b.len() > 0 && a[0] != b[0] {
        assert((a[0] as int) != (b[0] as int));
    }
    if a.len() > 0 && b.len() > 0 && a[0] == b[0] {
        if a.drop_first() == b.drop_first() {
            assert(a =~= seq![a[0]] + a.drop_first());
            assert(b =~= seq![b[0]] + b.drop_first());
        }
        lemma_text_lt_total(a.drop_first(), b.drop_first());
    }
}

pub proof fn lemma_key_lt_irreflexive(a: (Seq<char>, Seq<char>))
    ensures
        !key_lt(a, a),
{
    lemma_text_lt_irreflexive(lower_of(a.0));
    lemma_text_lt_irreflexive(a.0);
    lemma_text_lt_irreflexive(a.1);
}

pub proof fn lemma_key_lt_transitive(
    a: (Seq<char>, Seq<char>),
    b: (Seq<char>, Seq<char>),
    c: (Seq<char>, Seq<char>),
)
    requires
        key_lt(a, b),
        key_lt(b, c),
    ensures
        key_lt(a, c),
{
    let (la, lb, lc) = (lower_of(a.0), lower_of(b.0), lower_of(c.0));
    if text_lt(la, lb) && text_lt(lb, lc) {
        lemma_text_lt_transitive(la, lb, lc);
    }
    if la == lb && lb == lc {
        if text_lt(a.0, b.0) && text_lt(b.0, c.0) {
            lemma_text_lt_transitive(a.0, b.0, c.0);
        }
        if a.0 == b.0 && b.0 == c.0 && text_lt(a.1, b.1) && text_lt(b.1, c.1) {
            lemma_text_lt_transitive(a.1, b.1, c.1);
        }
    }
}

pub proof fn lemma_key_lt_total(a: (Seq<char>, Seq<char>), b: (Seq<char>, Seq<char>))
    requires
        a != b,
    ensures
        key_lt(a, b) || key_lt(b, a),
{
    if lower_of(a.0) != lower_of(b.0) {
        lemma_text_lt_total(lower_of(a.0), lower_of(b.0));
    } else if a.0 != b.0 {
        lemma_text_lt_total(a.0, b.0);
    } else {
        lemma_text_lt_total(a.1, b.1);
    }
}

/// Two sequences in strict key order that hold the same keys are the same
/// sequence: the order of a set of keys does not depend on where they came
/// from, so every run orders its candidates alike.
pub proof fn lemma_sorted_unique(a: Seq<(Seq<char>, Seq<char>)>, b: Seq<(Seq<char>, Seq<char>)>)
    requires
        strictly_sorted(a),
        strictly_sorted(b),
        a.to_set() == b.to_set(),
    ensures
        a == b,
    decreases a.len(),
{
    if a.len() == 0 {
        if b.len() > 0 {
            assert(b.to_set().contains(b[0]));
        }
        assert(a =~= b);
    } else if b.len() == 0 {
        assert(a.to_set().contains(a[0]));
    } else {
        assert(b.to_set().contains(b[0]));
        assert(a.to_set().contains(a[0]));
        let i = choose|i: int| 0 <= i < a.len() && a[i] == b[0];
        let j = choose|j: int| 0 <= j < b.len() && b[j] == a[0];
        if a[0] != b[0] {
            assert(i > 0 && j > 0);
            assert(key_lt(a[0], a[i]));
            assert(key_lt(b[0], b[j]));
            lemma_key_lt_transitive(a[0], b[0], a[0]);
            lemma_key_lt_irreflexive(a[0]);
        }
        let (ra, rb) = (a.drop_first(), b.drop_first());
        assert forall|x: (Seq<char>, Seq<char>)| #[trigger] ra.to_set().contains(x) == rb.to_set().contains(x) by {
            if ra.to_set().contains(x) {
                let t = choose|t: int| 0 <= t < ra.len() && ra[t] == x;
                assert(a[t + 1] == x);
                assert(key_lt(a[0], x));
                assert(b.to_set().contains(x));
                let u = choose|u: int| 0 <= u < b.len() && b[u] == x;
                if u == 0 {
                    lemma_key_lt_irreflexive(x);
                }
                assert(rb[u - 1] == x);
            }
            if rb.to_set().contains(x) {
                let t = choose|t: int| 0 <= t < rb.len() && rb[t] == x;
                assert(b[t + 1] == x);
                assert(key_lt(b[0], x));
                assert(a.to_set().contains(x));
                let u = choose|u: int| 0 <= u < a.len() && a[u] == x;
                if u == 0 {
                    lemma_key_lt_irreflexive(x);
                }
                assert(ra[u - 1] == x);
            }
        }
        assert(ra.to_set() =~= rb.to_set());
        assert forall|x: int, y: int| 0 <= x < y < ra.len() implies key_lt(#[trigger] ra[x], #[trigger] ra[y]) by {
            assert(ra[x] == a[x + 1] && ra[y] == a[y + 1]);
        }
        assert forall|x: int, y: int| 0 <= x < y < rb.len() implies key_lt(#[trigger] rb[x], #[trigger] rb[y]) by {
            assert(rb[x] == b[x + 1] && rb[y] == b[y + 1]);
        }
        lemma_sorted_unique(ra, rb);
        assert(a =~= seq![a[0]] + ra);
        assert(b =~= seq![b[0]] + rb);
    }
}

/// Compares two texts by [`text_lt`].
pub fn text_less(a: &str, b: &str) -> (r: bool)
    ensures
        r == text_lt(a@, b@),
{
    let n = a.unicode_len();
    let m = b.unicode_len();
    let mut i: usize = 0;
    assert(a@.skip(0) =~= a@);
    assert(b@.skip(0) =~= b@);
    while i < n && i < m && a.get_char(i) == b.get_char(i)
        invariant
            n == a@.len(),
            m == b@.len(),
            i <= n,
            i <= m,
            text_lt(a@, b@) == text_lt(a@.skip(i as int), b@.skip(i as int)),
        decreases n - i,
    {
        assert(a@.skip(i as int).drop_first() =~= a@.skip(i + 1));
        assert(b@.skip(i as int).drop_first() =~= b@.skip(i + 1));
        i = i + 1;
    }
    if i == n {
        i < m
    } else if i == m {
        false
    } else {
        (a.get_char(i) as u32) < (b.get_char(i) as u32)
    }
}

/// Compares two keys by [`key_lt`].
pub fn key_less(a: &CrateKey, b: &CrateKey) -> (r: bool)
    ensures
        r == key_lt(a@, b@),
{
    let la = lowercase(a.name.as_str());
    let lb = lowercase(b.name.as_str());
    proof {
        lemma_text_lt_irreflexive(la@);
        lemma_text_lt_irreflexive(a.name@);
    }
    if la == lb {
        if a.name == b.name {
            text_less(a.version.as_str(), b.version.as_str())
        } else {
            text_less(a.name.as_str(), b.name.as_str())
        }
    } else {
        text_less(la.as_str(), lb.as_str())
    }
}

/// Puts `k` into its place in the sorted `out`, unless a key equal to it is
/// there already.
fn insert_sorted(out: &mut Vec<CrateKey>, k: CrateKey)
    requires
        strictly_sorted(key_views(old(out)@)),
    ensures
        strictly_sorted(key_views(final(out)@)),
        key_views(final(out)@).to_set() == key_views(old(out)@).to_set().insert(k@),
{
    let ghost before = key_views(out@);
    let mut j: usize = 0;
    while j < out.len() && key_less(&out[j], &k)
        invariant
            j <= out.len(),
            key_views(out@) == before,
            forall|t: int| 0 <= t < j ==> key_lt(#[trigger] before[t], k@),
        decreases out.len() - j,
    {
        j = j + 1;
    }
    if j < out.len() && out[j] == k {
        assert(before.to_set() =~= before.to_set().insert(k@)) by {
            assert(before[j as int] == k@);
        }
        return;
    }
    out.insert(j, k);
    proof {
        let after = key_views(out@);
        assert(after =~= before.insert(j as int, k@));
        if j < before.len() {
            lemma_key_lt_total(before[j as int], k@);
        }
        assert forall|x: int, y: int| 0 <= x < y < after.len() implies key_lt(
            #[trigger] after[x],
            #[trigger] after[y],
        ) by {
            if y < j {
            } else if y == j {
            } else if x < j {
                if y - 1 > j {
                    lemma_key_lt_transitive(k@, before[j as int], before[y - 1]);
                }
                lemma_key_lt_transitive(after[x], k@, after[y]);
            } else if x == j {
                if y - 1 > j {
                    lemma_key_lt_transitive(k@, before[j as int], before[y - 1]);
                }
            } else {
                assert(key_lt(before[x - 1], before[y - 1]));
            }
        }
        assert forall|v: (Seq<char>, Seq<char>)| #[trigger]
            after.to_set().contains(v) == before.to_set().insert(k@).contains(v) by {
            if after.contains(v) {
                let t = choose|t: int| 0 <= t < after.len() && after[t] == v;
                if t < j {
                    assert(before[t] == v);
                } else if t > j {
                    assert(before[t - 1] == v);
                }
            }
            if before.contains(v) {
                let t = choose|t: int| 0 <= t < before.len() && before[t] == v;
                if t < j {
                    assert(after[t] == v);
                } else {
                    assert(after[t + 1] == v);
                }
            }
            if v == k@ {
                assert(after[j as int] == v);
            }
        }
        assert(after.to_set() =~= before.to_set().insert(k@));
    }
}

/// The keys in order, each once.
pub fn sort_keys(keys: &Vec<CrateKey>) -> (r: Vec<CrateKey>)
    ensures
        strictly_sorted(key_views(r@)),
        key_views(r@).to_set() == key_views(keys@).to_set(),
{
    let mut out: Vec<CrateKey> = Vec::new();
    let mut i: usize = 0;
    while i < keys.len()
        invariant
            i <= keys.len(),
            strictly_sorted(key_views(out@)),
            key_views(out@).to_set() == key_views(keys@).subrange(0, i as int).to_set(),
        decreases keys.len() - i,
    {
        let k = keys[i].clone();
        insert_sorted(&mut out, k);
        proof {
            let s = key_views(keys@);
            assert(s.subrange(0, i + 1) =~= s.subrange(0, i as int).push(s[i as int]));
            s.subrange(0, i as int).lemma_push_to_set_commute(s[i as int]);
        }
        i = i + 1;
    }
    assert(key_views(keys@).subrange(0, keys.len() as int) =~= key_views(keys@));
    out
}

} // verus!
