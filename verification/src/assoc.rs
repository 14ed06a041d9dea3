//! The mathematical view of an association vector: a `Vec<(K, V)>` with
//! pairwise distinct keys, read as a `Map` from keys to a projection of the
//! stored values.

use vstd::prelude::*;

verus! {

/// The keys of the entries are pairwise distinct.
pub open spec fn unique_keys<K, V>(s: Seq<(K, V)>) -> bool {
    forall|i: int, j: int| 0 <= i < j < s.len() ==> (#[trigger] s[i]).0 != (#[trigger] s[j]).0
}

/// Some entry carries the key `k`.
pub open spec fn has_key<K, V>(s: Seq<(K, V)>, k: K) -> bool {
    exists|i: int| 0 <= i < s.len() && (#[trigger] s[i]).0 == k
}

/// The map the entries denote, each stored value read through `f`. A later
/// entry wins, which is immaterial under `unique_keys`.
pub open spec fn assoc_map_of<K, V, W>(s: Seq<(K, V)>, f: spec_fn(V) -> W) -> Map<K, W>
    decreases s.len(),
{
    if s.len() == 0 {
        Map::empty()
    } else {
        assoc_map_of(s.drop_last(), f).insert(s.last().0, f(s.last().1))
    }
}

/// Under distinct keys, the denoted map has exactly the entries' keys as its
/// domain, one entry per key, and maps each key to its entry's value.
pub proof fn lemma_assoc_map_of<K, V, W>(s: Seq<(K, V)>, f: spec_fn(V) -> W)
    requires
        unique_keys(s),
    ensures
        assoc_map_of(s, f).dom().finite(),
        assoc_map_of(s, f).len() == s.len(),
        forall|k: K| #[trigger] assoc_map_of(s, f).contains_key(k) <==> has_key(s, k),
        forall|i: int|
            0 <= i < s.len() ==> assoc_map_of(s, f)[(#[trigger] s[i]).0] == f(s[i].1),
    decreases s.len(),
{
    if s.len() == 0 {
    } else {
        let s0 = s.drop_last();
        let k = s.last().0;
        lemma_assoc_map_of(s0, f);
        assert(!has_key(s0, k)) by {
            if has_key(s0, k) {
                let i = choose|i: int| 0 <= i < s0.len() && (#[trigger] s0[i]).0 == k;
                assert(s[i] == s0[i]);
                assert(s[i].0 == s[s.len() - 1].0);
            }
        }
        assert forall|k2: K| #[trigger] assoc_map_of(s, f).contains_key(k2) <==> has_key(
            s,
            k2,
        ) by {
            if assoc_map_of(s, f).contains_key(k2) {
                if k2 == k {
                    assert((s[s.len() - 1]).0 == k2);
                } else {
                    let i = choose|i: int| 0 <= i < s0.len() && (#[trigger] s0[i]).0 == k2;
                    assert((s[i]).0 == k2);
                }
            }
            if has_key(s, k2) {
                let i = choose|i: int| 0 <= i < s.len() && (#[trigger] s[i]).0 == k2;
                if i < s.len() - 1 {
                    assert((s0[i]).0 == k2);
                }
            }
        }
        assert forall|i: int| 0 <= i < s.len() implies assoc_map_of(s, f)[(#[trigger] s[i]).0]
            == f(s[i].1) by {
            if i < s.len() - 1 {
                assert(s[i] == s0[i]);
                assert(s[i].0 != k);
            }
        }
    }
}

/// Replacing the entry at `i` by one with the same key updates the denoted
/// map at that key.
pub proof fn lemma_assoc_update<K, V, W>(s: Seq<(K, V)>, f: spec_fn(V) -> W, i: int, v: (K, V))
    requires
        unique_keys(s),
        0 <= i < s.len(),
        v.0 == s[i].0,
    ensures
        unique_keys(s.update(i, v)),
        assoc_map_of(s.update(i, v), f) == assoc_map_of(s, f).insert(v.0, f(v.1)),
{
    let t = s.update(i, v);
    assert(forall|j: int| 0 <= j < s.len() ==> (#[trigger] t[j]).0 == (#[trigger] s[j]).0);
    lemma_assoc_map_of(s, f);
    lemma_assoc_map_of(t, f);
    let m1 = assoc_map_of(t, f);
    let m2 = assoc_map_of(s, f).insert(v.0, f(v.1));
    assert forall|k: K| m1.contains_key(k) <==> m2.contains_key(k) by {
        assert(has_key(t, k) <==> has_key(s, k)) by {
            if has_key(t, k) {
                let j = choose|j: int| 0 <= j < t.len() && (#[trigger] t[j]).0 == k;
                assert((s[j]).0 == k);
            }
            if has_key(s, k) {
                let j = choose|j: int| 0 <= j < s.len() && (#[trigger] s[j]).0 == k;
                assert((t[j]).0 == k);
            }
        }
        if k == v.0 {
            assert((s[i]).0 == k);
        }
    }
    assert forall|k: K| #[trigger] m1.contains_key(k) implies m1[k] == m2[k] by {
        let j = choose|j: int| 0 <= j < t.len() && (#[trigger] t[j]).0 == k;
        if k == v.0 {
            assert(j == i || (t[j]).0 != (t[i]).0);
            assert(m1[k] == f(t[i].1));
        } else {
            assert(j != i);
            assert(t[j] == s[j]);
            assert(m1[k] == f(t[j].1));
            assert(m2[k] == f(s[j].1));
        }
    }
    assert(m1 =~= m2);
}

/// Inserting an entry with a fresh key at any position adds that key to the
/// denoted map.
pub proof fn lemma_assoc_insert<K, V, W>(s: Seq<(K, V)>, f: spec_fn(V) -> W, p: int, v: (K, V))
    requires
        unique_keys(s),
        0 <= p <= s.len(),
        !has_key(s, v.0),
    ensures
        unique_keys(s.insert(p, v)),
        assoc_map_of(s.insert(p, v), f) == assoc_map_of(s, f).insert(v.0, f(v.1)),
{
    let t = s.insert(p, v);
    assert(t[p] == v);
    assert(forall|j: int| 0 <= j < p ==> #[trigger] t[j] == s[j]);
    assert(forall|j: int| p < j < t.len() ==> #[trigger] t[j] == s[j - 1]);
    assert(unique_keys(t)) by {
        assert forall|i: int, j: int| 0 <= i < j < t.len() implies (#[trigger] t[i]).0
            != (#[trigger] t[j]).0 by {
            if i != p && j != p {
                let i2: int = if i < p { i } else { i - 1 };
                let j2: int = if j < p { j } else { j - 1 };
                assert(t[i] == s[i2] && t[j] == s[j2]);
            } else if i == p {
                assert(t[j] == s[j - 1]);
                assert(!((s[j - 1]).0 == v.0));
            } else {
                assert(t[i] == s[i]);
                assert(!((s[i]).0 == v.0));
            }
        }
    }
    lemma_assoc_map_of(s, f);
    lemma_assoc_map_of(t, f);
    let m1 = assoc_map_of(t, f);
    let m2 = assoc_map_of(s, f).insert(v.0, f(v.1));
    assert forall|k: K| m1.contains_key(k) <==> m2.contains_key(k) by {
        if m1.contains_key(k) {
            let j = choose|j: int| 0 <= j < t.len() && (#[trigger] t[j]).0 == k;
            if j < p {
                assert((s[j]).0 == k);
            } else if j > p {
                assert((s[j - 1]).0 == k);
            }
        }
        if m2.contains_key(k) {
            if k == v.0 {
                assert((t[p]).0 == k);
            } else {
                let j = choose|j: int| 0 <= j < s.len() && (#[trigger] s[j]).0 == k;
                if j < p {
                    assert((t[j]).0 == k);
                } else {
                    assert((t[j + 1]).0 == k);
                }
            }
        }
    }
    assert forall|k: K| #[trigger] m1.contains_key(k) implies m1[k] == m2[k] by {
        let j = choose|j: int| 0 <= j < t.len() && (#[trigger] t[j]).0 == k;
        assert(m1[k] == f(t[j].1));
        if j == p {
            assert(k == v.0);
        } else {
            let j2: int = if j < p { j } else { j - 1 };
            assert(t[j] == s[j2]);
            assert(k != v.0);
            assert(m2[k] == f(s[j2].1));
        }
    }
    assert(m1 =~= m2);
}

} // verus!
