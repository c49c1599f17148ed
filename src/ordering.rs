//! Lexicographic order of texts and a stable sort of keyed items.
use vstd::prelude::*;
use vstd::multiset::Multiset;

verus! {

/// `a` comes before or equals `b` in lexicographic order of characters (the
/// order of `String`'s `Ord`, since UTF-8 keeps the order of code points).
pub open spec fn seq_le(a: Seq<char>, b: Seq<char>) -> bool
    decreases a.len(),
{
    if a.len() == 0 {
        true
    } else if b.len() == 0 {
        false
    } else if a[0] != b[0] {
        a[0] < b[0]
    } else {
        seq_le(a.drop_first(), b.drop_first())
    }
}

/// Any two texts are ordered one way or the other.
pub proof fn lemma_seq_le_total(a: Seq<char>, b: Seq<char>)
    ensures
        seq_le(a, b) || seq_le(b, a),
    decreases a.len(),
{
    if a.len() > 0 && b.len() > 0 && a[0] == b[0] {
        lemma_seq_le_total(a.drop_first(), b.drop_first());
    }
}

/// Whether `a` comes before or equals `b` in lexicographic order.
pub fn text_le(a: &str, b: &str) -> (r: bool)
    ensures
        r == seq_le(a@, b@),
{
    let n = a.unicode_len();
    let m = b.unicode_len();
    let mut i: usize = 0;
    assert(a@.subrange(0, n as int) =~= a@);
    assert(b@.subrange(0, m as int) =~= b@);
    while i < n && i < m && a.get_char(i) == b.get_char(i)
        invariant
            n == a@.len(),
            m == b@.len(),
            0 <= i <= n,
            i <= m,
            seq_le(a@.subrange(i as int, n as int), b@.subrange(i as int, m as int)) == seq_le(a@, b@),
        decreases n - i,
    {
        assert(a@.subrange(i as int, n as int).drop_first() =~= a@.subrange(i + 1, n as int));
        assert(b@.subrange(i as int, m as int).drop_first() =~= b@.subrange(i + 1, m as int));
        i = i + 1;
    }
    if i == n {
        true
    } else if i == m {
        false
    } else {
        a.get_char(i) < b.get_char(i)
    }
}

/// The keys of a keyed sequence never decrease.
pub open spec fn keys_sorted<T>(s: Seq<(String, T)>) -> bool {
    forall|i: int| 0 <= i < s.len() - 1 ==> seq_le(#[trigger] s[i].0@, s[i + 1].0@)
}

/// Sort items by their keys, stably: equal keys keep their order.
pub fn sort_by_key<T>(items: Vec<(String, T)>) -> (r: Vec<(String, T)>)
    ensures
        keys_sorted(r@),
        r@.to_multiset() == items@.to_multiset(),
{
    broadcast use vstd::seq_lib::group_to_multiset_ensures;

    let mut out: Vec<(String, T)> = Vec::new();
    let mut rest = items;
    assert(out@.to_multiset() =~= Multiset::empty());
    while rest.len() > 0
        invariant
            keys_sorted(out@),
            out@.to_multiset().add(rest@.to_multiset()) == items@.to_multiset(),
        decreases rest@.len(),
    {
        let ghost rest0 = rest@;
        let x = rest.remove(0);
        proof {
            rest0.to_multiset_ensures();
            assert(rest@ == rest0.remove(0));
            assert(rest0.remove(0).to_multiset() == rest0.to_multiset().remove(rest0[0]));
            assert(rest0.contains(x)) by {
                assert(rest0[0] == x);
            }
            assert(rest0.to_multiset().count(x) > 0);
        }
        let mut p: usize = 0;
        while p < out.len() && text_le(out[p].0.as_str(), x.0.as_str())
            invariant
                0 <= p <= out@.len(),
                keys_sorted(out@),
                p > 0 ==> seq_le(out@[p - 1].0@, x.0@),
            decreases out@.len() - p,
        {
            p = p + 1;
        }
        let ghost out0 = out@;
        proof {
            if p < out@.len() {
                lemma_seq_le_total(x.0@, out@[p as int].0@);
            }
        }
        out.insert(p, x);
        proof {
            assert(out@.remove(p as int) =~= out0);
            assert(out@[p as int] == x);
            out@.to_multiset_ensures();
            assert(out@.to_multiset() =~= out0.to_multiset().insert(x)) by {
                assert(out@.remove(p as int).to_multiset() == out@.to_multiset().remove(out@[p as int]));
                assert(out@.contains(x));
                assert(out@.to_multiset().count(x) > 0);
            }
            assert forall|i: int| 0 <= i < out@.len() - 1 implies seq_le(#[trigger] out@[i].0@, out@[i + 1].0@) by {
                if i < p - 1 {
                    assert(out@[i] == out0[i] && out@[i + 1] == out0[i + 1]);
                } else if i == p - 1 {
                } else if i == p {
                } else {
                    assert(out@[i] == out0[i - 1] && out@[i + 1] == out0[i]);
                }
            }
        }
    }
    proof {
        assert(rest@.to_multiset() =~= Multiset::empty());
    }
    out
}

} // verus!
