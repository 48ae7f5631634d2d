//! Keyed tables held as sequences of entries with pairwise distinct keys, and
//! the finite maps they denote.

use vstd::prelude::*;

verus! {

/// No two entries of `s` share a key.
pub open spec fn unique_keys<E, K>(s: Seq<E>, key: spec_fn(E) -> K) -> bool {
    forall|i: int, j: int|
        0 <= i < s.len() && 0 <= j < s.len() && #[trigger] key(s[i]) == #[trigger] key(s[j]) ==> i
            == j
}

/// Some entry of `s` has key `k`.
pub open spec fn has_key<E, K>(s: Seq<E>, key: spec_fn(E) -> K, k: K) -> bool {
    exists|i: int| 0 <= i < s.len() && #[trigger] key(s[i]) == k
}

/// The position of an entry with key `k` (meaningful when there is one).
pub open spec fn index_of_key<E, K>(s: Seq<E>, key: spec_fn(E) -> K, k: K) -> int {
    choose|i: int| 0 <= i < s.len() && #[trigger] key(s[i]) == k
}

/// The map from each key of `s` to the value of its entry.
pub open spec fn to_map<E, K, V>(s: Seq<E>, key: spec_fn(E) -> K, val: spec_fn(E) -> V) -> Map<
    K,
    V,
> {
    Map::new(|k: K| has_key(s, key, k), |k: K| val(s[index_of_key(s, key, k)]))
}

/// An entry's key maps to that entry's value.
pub proof fn lemma_map_get<E, K, V>(s: Seq<E>, key: spec_fn(E) -> K, val: spec_fn(E) -> V, i: int)
    requires
        unique_keys(s, key),
        0 <= i < s.len(),
    ensures
        to_map(s, key, val).contains_key(key(s[i])),
        to_map(s, key, val)[key(s[i])] == val(s[i]),
{
    let k = key(s[i]);
    assert(has_key(s, key, k));
    let j = index_of_key(s, key, k);
    assert(key(s[j]) == k);
}

/// A key no entry carries is not in the map.
pub proof fn lemma_map_absent<E, K, V>(s: Seq<E>, key: spec_fn(E) -> K, val: spec_fn(E) -> V, k: K)
    requires
        forall|i: int| 0 <= i < s.len() ==> #[trigger] key(s[i]) != k,
    ensures
        !to_map(s, key, val).contains_key(k),
{
}

/// Appending an entry with a new key inserts it into the map.
pub proof fn lemma_map_push<E, K, V>(s: Seq<E>, key: spec_fn(E) -> K, val: spec_fn(E) -> V, e: E)
    requires
        unique_keys(s, key),
        !has_key(s, key, key(e)),
    ensures
        unique_keys(s.push(e), key),
        to_map(s.push(e), key, val) == to_map(s, key, val).insert(key(e), val(e)),
{
    let t = s.push(e);
    assert forall|i: int, j: int|
        0 <= i < t.len() && 0 <= j < t.len() && #[trigger] key(t[i]) == #[trigger] key(t[j]) implies i
        == j by {
        if i < s.len() && j < s.len() {
            assert(t[i] == s[i] && t[j] == s[j]);
        } else if i < s.len() {
            assert(t[i] == s[i]);
            assert(t[j] == e);
        } else if j < s.len() {
            assert(t[j] == s[j]);
            assert(t[i] == e);
        }
    }
    let m1 = to_map(t, key, val);
    let m2 = to_map(s, key, val).insert(key(e), val(e));
    assert forall|k: K| m1.contains_key(k) <==> m2.contains_key(k) by {
        if has_key(s, key, k) {
            let i = index_of_key(s, key, k);
            assert(t[i] == s[i]);
        }
        if k == key(e) {
            assert(t[s.len() as int] == e);
        }
        if has_key(t, key, k) {
            let i = index_of_key(t, key, k);
            if i < s.len() {
                assert(t[i] == s[i]);
            }
        }
    }
    assert forall|k: K| #[trigger] m1.contains_key(k) implies m1[k] == m2[k] by {
        let i = index_of_key(t, key, k);
        if k == key(e) {
            assert(t[s.len() as int] == e);
            assert(i == s.len());
        } else {
            assert(i < s.len());
            assert(t[i] == s[i]);
            lemma_map_get(s, key, val, i);
        }
    }
    assert(m1 =~= m2);
}

/// Replacing an entry by one with the same key updates the map there.
pub proof fn lemma_map_update<E, K, V>(
    s: Seq<E>,
    key: spec_fn(E) -> K,
    val: spec_fn(E) -> V,
    i: int,
    e: E,
)
    requires
        unique_keys(s, key),
        0 <= i < s.len(),
        key(e) == key(s[i]),
    ensures
        unique_keys(s.update(i, e), key),
        to_map(s.update(i, e), key, val) == to_map(s, key, val).insert(key(e), val(e)),
{
    let t = s.update(i, e);
    assert forall|a: int, b: int|
        0 <= a < t.len() && 0 <= b < t.len() && #[trigger] key(t[a]) == #[trigger] key(t[b]) implies a
        == b by {
        if a != i {
            assert(t[a] == s[a]);
        }
        if b != i {
            assert(t[b] == s[b]);
        }
    }
    let m1 = to_map(t, key, val);
    let m2 = to_map(s, key, val).insert(key(e), val(e));
    assert forall|k: K| m1.contains_key(k) <==> m2.contains_key(k) by {
        if has_key(s, key, k) {
            let j = index_of_key(s, key, k);
            if j != i {
                assert(t[j] == s[j]);
            } else {
                assert(t[i] == e);
            }
        }
        if k == key(e) {
            assert(t[i] == e);
        }
        if has_key(t, key, k) {
            let j = index_of_key(t, key, k);
            if j != i {
                assert(t[j] == s[j]);
            }
        }
    }
    assert forall|k: K| #[trigger] m1.contains_key(k) implies m1[k] == m2[k] by {
        let j = index_of_key(t, key, k);
        assert(t[i] == e);
        if k == key(e) {
            assert(j == i);
        } else {
            assert(j != i);
            assert(t[j] == s[j]);
            lemma_map_get(s, key, val, j);
        }
    }
    assert(m1 =~= m2);
}

/// Removing an entry removes its key from the map.
pub proof fn lemma_map_remove<E, K, V>(s: Seq<E>, key: spec_fn(E) -> K, val: spec_fn(E) -> V, i: int)
    requires
        unique_keys(s, key),
        0 <= i < s.len(),
    ensures
        unique_keys(s.remove(i), key),
        to_map(s.remove(i), key, val) == to_map(s, key, val).remove(key(s[i])),
{
    let t = s.remove(i);
    let gone = key(s[i]);
    assert forall|a: int, b: int|
        0 <= a < t.len() && 0 <= b < t.len() && #[trigger] key(t[a]) == #[trigger] key(t[b]) implies a
        == b by {
        let sa = if a < i { a } else { a + 1 };
        let sb = if b < i { b } else { b + 1 };
        assert(t[a] == s[sa]);
        assert(t[b] == s[sb]);
    }
    let m1 = to_map(t, key, val);
    let m2 = to_map(s, key, val).remove(gone);
    assert forall|k: K| m1.contains_key(k) <==> m2.contains_key(k) by {
        if has_key(s, key, k) && k != gone {
            let j = index_of_key(s, key, k);
            assert(j != i);
            let tj = if j < i { j } else { j - 1 };
            assert(t[tj] == s[j]);
        }
        if has_key(t, key, k) {
            let j = index_of_key(t, key, k);
            let sj = if j < i { j } else { j + 1 };
            assert(t[j] == s[sj]);
            assert(sj != i);
        }
    }
    assert forall|k: K| #[trigger] m1.contains_key(k) implies m1[k] == m2[k] by {
        let j = index_of_key(t, key, k);
        let sj = if j < i { j } else { j + 1 };
        assert(t[j] == s[sj]);
        lemma_map_get(s, key, val, sj);
    }
    assert(m1 =~= m2);
}

/// The map has one key per entry.
pub proof fn lemma_map_len<E, K, V>(s: Seq<E>, key: spec_fn(E) -> K, val: spec_fn(E) -> V)
    requires
        unique_keys(s, key),
    ensures
        to_map(s, key, val).dom().finite(),
        to_map(s, key, val).len() == s.len(),
    decreases s.len(),
{
    if s.len() == 0 {
        assert(to_map(s, key, val).dom() =~= Set::<K>::empty());
    } else {
        let p = s.drop_last();
        let e = s.last();
        assert forall|i: int, j: int|
            0 <= i < p.len() && 0 <= j < p.len() && #[trigger] key(p[i]) == #[trigger] key(p[j])
            implies i == j by {
            assert(p[i] == s[i] && p[j] == s[j]);
        }
        assert(!has_key(p, key, key(e))) by {
            if has_key(p, key, key(e)) {
                let i = choose|i: int| 0 <= i < p.len() && #[trigger] key(p[i]) == key(e);
                assert(p[i] == s[i]);
                assert(s[s.len() - 1] == e);
            }
        }
        lemma_map_len(p, key, val);
        lemma_map_push(p, key, val, e);
        assert(p.push(e) =~= s);
    }
}

} // verus!
