//! The order of `String`: lexicographic by code point, which is the byte
//! order of the UTF-8 encodings that `Ord for String` compares.

use vstd::prelude::*;
use crate::text::{chars_of, str_eq};

verus! {

/// `a` comes strictly before `b` in lexicographic code point order.
pub open spec fn seq_lt(a: Seq<char>, b: Seq<char>) -> bool
    decreases a.len(),
{
    if a.len() == 0 {
        b.len() > 0
    } else if b.len() == 0 {
        false
    } else if (a[0] as u32) < (b[0] as u32) {
        true
    } else if a[0] == b[0] {
        seq_lt(a.drop_first(), b.drop_first())
    } else {
        false
    }
}

/// No sequence comes before itself.
pub proof fn lemma_lt_irreflexive(a: Seq<char>)
    ensures
        !seq_lt(a, a),
    decreases a.len(),
{
    if a.len() > 0 {
        lemma_lt_irreflexive(a.drop_first());
    }
}

/// The order is transitive.
pub proof fn lemma_lt_transitive(a: Seq<char>, b: Seq<char>, c: Seq<char>)
    requires
        seq_lt(a, b),
        seq_lt(b, c),
    ensures
        seq_lt(a, c),
    decreases a.len(),
{
    if a.len() > 0 && b.len() > 0 && c.len() > 0 && a[0] == b[0] && b[0] == c[0] {
        lemma_lt_transitive(a.drop_first(), b.drop_first(), c.drop_first());
    }
}

/// Two different sequences are ordered one way or the other.
pub proof fn lemma_lt_total(a: Seq<char>, b: Seq<char>)
    requires
        a != b,
    ensures
        seq_lt(a, b) || seq_lt(b, a),
    decreases a.len(),
{
    if a.len() == 0 && b.len() == 0 {
        assert(a =~= b);
    } else if a.len() > 0 && b.len() > 0 && a[0] == b[0] {
        if a.drop_first() == b.drop_first() {
            assert(a =~= b.drop_first().insert(0, b[0]));
            assert(b =~= b.drop_first().insert(0, b[0]));
        }
        lemma_lt_total(a.drop_first(), b.drop_first());
    } else if a.len() > 0 && b.len() > 0 {
        if (a[0] as u32) == (b[0] as u32) {
            vstd::utf8::char_u32_cast(a[0], a[0] as u32);
            vstd::utf8::char_u32_cast(b[0], b[0] as u32);
        }
    }
}

/// The order is asymmetric.
pub proof fn lemma_lt_asymmetric(a: Seq<char>, b: Seq<char>)
    requires
        seq_lt(a, b),
    ensures
        !seq_lt(b, a),
{
    if seq_lt(b, a) {
        lemma_lt_transitive(a, b, a);
        lemma_lt_irreflexive(a);
    }
}

/// `Ord for String`: whether `a < b`.
pub fn str_lt(a: &str, b: &str) -> (r: bool)
    ensures
        r == seq_lt(a@, b@),
{
    let va = chars_of(a);
    let vb = chars_of(b);
    let mut k: usize = 0;
    assert(va@.skip(0) =~= va@);
    assert(vb@.skip(0) =~= vb@);
    while k < va.len() && k < vb.len() && va[k] == vb[k]
        invariant
            k <= va.len(),
            k <= vb.len(),
            va@ == a@,
            vb@ == b@,
            seq_lt(va@, vb@) == seq_lt(va@.skip(k as int), vb@.skip(k as int)),
        decreases va.len() - k,
    {
        assert(va@.skip(k as int).drop_first() =~= va@.skip(k + 1));
        assert(vb@.skip(k as int).drop_first() =~= vb@.skip(k + 1));
        k = k + 1;
    }
    if k == va.len() {
        k < vb.len()
    } else if k == vb.len() {
        false
    } else {
        (va[k] as u32) < (vb[k] as u32)
    }
}

/// The views of a sequence of strings.
pub open spec fn views(v: Seq<String>) -> Seq<Seq<char>> {
    v.map_values(|s: String| s@)
}

/// Every element comes strictly before each later one.
pub open spec fn strictly_sorted(s: Seq<Seq<char>>) -> bool {
    forall|i: int, j: int| 0 <= i < j < s.len() ==> seq_lt(#[trigger] s[i], #[trigger] s[j])
}

/// Two strictly sorted sequences with the same elements are equal.
pub proof fn lemma_sorted_unique(a: Seq<Seq<char>>, b: Seq<Seq<char>>)
    requires
        strictly_sorted(a),
        strictly_sorted(b),
        forall|x: Seq<char>| a.contains(x) <==> b.contains(x),
    ensures
        a == b,
    decreases a.len(),
{
    if a.len() == 0 {
        if b.len() > 0 {
            assert(b.contains(b[0]));
        }
        assert(a =~= b);
    } else if b.len() == 0 {
        assert(a.contains(a[0]));
    } else {
        // the smallest elements agree
        assert(a.contains(a[0]));
        assert(b.contains(b[0]));
        let ia = choose|i: int| 0 <= i < a.len() && a[i] == b[0];
        let ib = choose|i: int| 0 <= i < b.len() && b[i] == a[0];
        if ia > 0 {
            assert(seq_lt(a[0], a[ia]));
            if ib > 0 {
                assert(seq_lt(b[0], b[ib]));
                lemma_lt_asymmetric(a[0], b[0]);
            } else {
                lemma_lt_irreflexive(a[0]);
            }
        }
        assert(a[0] == b[0]);
        let ra = a.drop_first();
        let rb = b.drop_first();
        assert forall|x: Seq<char>| ra.contains(x) implies rb.contains(x) by {
            let i = choose|i: int| 0 <= i < ra.len() && ra[i] == x;
            assert(seq_lt(a[0], a[i + 1]));
            assert(a.contains(x));
            let j = choose|j: int| 0 <= j < b.len() && b[j] == x;
            if j == 0 {
                lemma_lt_irreflexive(x);
            }
            assert(rb[j - 1] == x);
        }
        assert forall|x: Seq<char>| rb.contains(x) implies ra.contains(x) by {
            let i = choose|i: int| 0 <= i < rb.len() && rb[i] == x;
            assert(seq_lt(b[0], b[i + 1]));
            assert(b.contains(x));
            let j = choose|j: int| 0 <= j < a.len() && a[j] == x;
            if j == 0 {
                lemma_lt_irreflexive(x);
            }
            assert(ra[j - 1] == x);
        }
        lemma_sorted_unique(ra, rb);
        assert(a =~= rb.insert(0, b[0]));
        assert(b =~= rb.insert(0, b[0]));
    }
}

/// Where `x` belongs in the strictly sorted `v`: the first index whose
/// element does not come before `x`, and whether that element equals `x`.
pub fn find_slot(v: &Vec<String>, x: &str) -> (r: (usize, bool))
    requires
        strictly_sorted(views(v@)),
    ensures
        r.0 <= v.len(),
        forall|i: int| 0 <= i < r.0 ==> seq_lt(#[trigger] views(v@)[i], x@),
        r.1 ==> r.0 < v.len() && views(v@)[r.0 as int] == x@,
        !r.1 ==> forall|i: int| r.0 <= i < v.len() ==> seq_lt(x@, #[trigger] views(v@)[i]),
        !r.1 ==> !views(v@).contains(x@),
{
    let ghost s = views(v@);
    let mut k: usize = 0;
    while k < v.len() && str_lt(v[k].as_str(), x)
        invariant
            k <= v.len(),
            views(v@) == s,
            strictly_sorted(s),
            forall|i: int| 0 <= i < k ==> seq_lt(#[trigger] s[i], x@),
        decreases v.len() - k,
    {
        k = k + 1;
    }
    if k < v.len() && str_eq(v[k].as_str(), x) {
        return (k, true);
    }
    proof {
        if k < v.len() {
            lemma_lt_total(s[k as int], x@);
            assert forall|i: int| k < i < s.len() implies seq_lt(x@, #[trigger] s[i]) by {
                lemma_lt_transitive(x@, s[k as int], s[i]);
            }
        }
        if s.contains(x@) {
            let i = choose|i: int| 0 <= i < s.len() && s[i] == x@;
            if i < k {
                lemma_lt_irreflexive(x@);
            } else {
                lemma_lt_irreflexive(x@);
            }
        }
    }
    (k, false)
}

/// Inserting `x` where it belongs keeps a sequence strictly sorted.
pub proof fn lemma_insert_keeps_sorted(s: Seq<Seq<char>>, k: int, x: Seq<char>)
    requires
        strictly_sorted(s),
        0 <= k <= s.len(),
        forall|i: int| 0 <= i < k ==> seq_lt(#[trigger] s[i], x),
        forall|i: int| k <= i < s.len() ==> seq_lt(x, #[trigger] s[i]),
    ensures
        strictly_sorted(s.insert(k, x)),
{
    let nv = s.insert(k, x);
    assert forall|i: int, j: int| 0 <= i < j < nv.len() implies seq_lt(
        #[trigger] nv[i],
        #[trigger] nv[j],
    ) by {
        if i < k && j > k {
            assert(nv[j] == s[j - 1]);
            lemma_lt_transitive(s[i], x, s[j - 1]);
        } else if i < k && j < k {
        } else if i < k {
        } else if i == k {
            assert(nv[j] == s[j - 1]);
        } else {
            assert(nv[j] == s[j - 1]);
            assert(nv[i] == s[i - 1]);
        }
    }
}

/// Adds `x` to the strictly sorted `v`, unless an equal string is already there.
pub fn insert_sorted_unique(v: &mut Vec<String>, x: String)
    requires
        strictly_sorted(views(old(v)@)),
    ensures
        strictly_sorted(views(final(v)@)),
        forall|y: Seq<char>|
            views(final(v)@).contains(y) <==> (views(old(v)@).contains(y) || y == x@),
{
    let ghost old_v = views(v@);
    let (k, found) = find_slot(v, x.as_str());
    if found {
        return;
    }
    proof {
        lemma_insert_keeps_sorted(old_v, k as int, x@);
    }
    v.insert(k, x);
    assert(views(v@) =~= old_v.insert(k as int, x@));
    proof {
        let nv = views(v@);
        assert forall|y: Seq<char>| nv.contains(y) <==> (old_v.contains(y) || y == x@) by {
            if nv.contains(y) {
                let i = choose|i: int| 0 <= i < nv.len() && nv[i] == y;
                if i < k {
                    assert(old_v[i] == y);
                } else if i > k {
                    assert(old_v[i - 1] == y);
                }
            }
            if old_v.contains(y) {
                let i = choose|i: int| 0 <= i < old_v.len() && old_v[i] == y;
                if i < k {
                    assert(nv[i] == y);
                } else {
                    assert(nv[i + 1] == y);
                }
            }
            if y == x@ {
                assert(nv[k as int] == y);
            }
        }
    }
}

} // verus!
