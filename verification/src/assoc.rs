//! Association lists: a `Vec` of `(key, value)` pairs with unique keys,
//! viewed as a finite map. The runners keep their per-group state this way.

use vstd::prelude::*;

use crate::model::GroupId;

verus! {

/// The pairs as a map (a later pair for a key wins).
pub open spec fn assoc_map<K, V>(s: Seq<(K, V)>) -> Map<K, V>
    decreases s.len(),
{
    if s.len() == 0 {
        Map::empty()
    } else {
        assoc_map(s.drop_last()).insert(s.last().0, s.last().1)
    }
}

/// No key occurs twice.
pub open spec fn keys_unique<K, V>(s: Seq<(K, V)>) -> bool {
    forall|i: int, j: int| 0 <= i < j < s.len() ==> (#[trigger] s[i]).0 != (#[trigger] s[j]).0
}

/// The keys in order.
pub open spec fn keys_of<K, V>(s: Seq<(K, V)>) -> Seq<K> {
    s.map_values(|e: (K, V)| e.0)
}

/// The pair at position `i` is what the map holds for its key.
pub proof fn lemma_assoc_get<K, V>(w: Seq<(K, V)>, i: int)
    requires
        keys_unique(w),
        0 <= i < w.len(),
    ensures
        assoc_map(w).contains_key(w[i].0),
        assoc_map(w)[w[i].0] == w[i].1,
    decreases w.len(),
{
    if i < w.len() - 1 {
        assert(w.drop_last()[i] == w[i]);
        lemma_assoc_get(w.drop_last(), i);
        assert(w[i].0 != w.last().0);
    }
}

/// A key in no pair is not in the map.
pub proof fn lemma_assoc_absent<K, V>(w: Seq<(K, V)>, k: K)
    requires
        forall|i: int| 0 <= i < w.len() ==> (#[trigger] w[i]).0 != k,
    ensures
        !assoc_map(w).contains_key(k),
    decreases w.len(),
{
    if w.len() > 0 {
        assert forall|i: int| 0 <= i < w.drop_last().len() implies (#[trigger] w.drop_last()[i]).0
            != k by {
            assert(w.drop_last()[i] == w[i]);
        }
        lemma_assoc_absent(w.drop_last(), k);
        assert(w.last() == w[w.len() - 1]);
    }
}

/// Replacing the value at position `i` replaces it in the map.
pub proof fn lemma_assoc_update<K, V>(w: Seq<(K, V)>, i: int, v: V)
    requires
        keys_unique(w),
        0 <= i < w.len(),
    ensures
        assoc_map(w.update(i, (w[i].0, v))) == assoc_map(w).insert(w[i].0, v),
        keys_unique(w.update(i, (w[i].0, v))),
    decreases w.len(),
{
    let u = w.update(i, (w[i].0, v));
    assert forall|x: int, y: int| 0 <= x < y < u.len() implies (#[trigger] u[x]).0 != (
    #[trigger] u[y]).0 by {
        assert(w[x].0 != w[y].0);
    }
    if i == w.len() - 1 {
        assert(u.drop_last() =~= w.drop_last());
        assert(assoc_map(u) =~= assoc_map(w).insert(w[i].0, v));
    } else {
        assert(u.drop_last() =~= w.drop_last().update(i, (w[i].0, v)));
        assert(w.drop_last()[i] == w[i]);
        lemma_assoc_update(w.drop_last(), i, v);
        assert(w[i].0 != w.last().0);
        assert(assoc_map(u) =~= assoc_map(w).insert(w[i].0, v));
    }
}

/// Adding a pair for a new key adds it to the map.
pub proof fn lemma_assoc_push<K, V>(w: Seq<(K, V)>, k: K, v: V)
    requires
        keys_unique(w),
        forall|i: int| 0 <= i < w.len() ==> (#[trigger] w[i]).0 != k,
    ensures
        assoc_map(w.push((k, v))) == assoc_map(w).insert(k, v),
        keys_unique(w.push((k, v))),
{
    let u = w.push((k, v));
    assert(u.drop_last() =~= w);
    assert forall|x: int, y: int| 0 <= x < y < u.len() implies (#[trigger] u[x]).0 != (
    #[trigger] u[y]).0 by {
        if y == w.len() {
            assert(u[x] == w[x]);
        } else {
            assert(w[x].0 != w[y].0);
        }
    }
}

/// Removing the pair at position `i` removes its key from the map.
pub proof fn lemma_assoc_remove<K, V>(w: Seq<(K, V)>, i: int)
    requires
        keys_unique(w),
        0 <= i < w.len(),
    ensures
        assoc_map(w.remove(i)) == assoc_map(w).remove(w[i].0),
        keys_unique(w.remove(i)),
        forall|j: int| 0 <= j < w.remove(i).len() ==> (#[trigger] w.remove(i)[j]).0 != w[i].0,
    decreases w.len(),
{
    let r = w.remove(i);
    assert forall|x: int, y: int| 0 <= x < y < r.len() implies (#[trigger] r[x]).0 != (
    #[trigger] r[y]).0 by {
        let x0 = if x < i { x } else { x + 1 };
        let y0 = if y < i { y } else { y + 1 };
        assert(r[x] == w[x0] && r[y] == w[y0]);
    }
    assert forall|j: int| 0 <= j < r.len() implies (#[trigger] r[j]).0 != w[i].0 by {
        let j0 = if j < i { j } else { j + 1 };
        assert(r[j] == w[j0]);
        if j0 < i {
            assert(w[j0].0 != w[i].0);
        } else {
            assert(w[i].0 != w[j0].0);
        }
    }
    if i == w.len() - 1 {
        assert(r =~= w.drop_last());
        assert forall|j: int| 0 <= j < w.drop_last().len() implies (#[trigger] w.drop_last()[j]).0
            != w[i].0 by {
            assert(w.drop_last()[j] == w[j]);
            assert(w[j].0 != w[i].0);
        }
        lemma_assoc_absent(w.drop_last(), w[i].0);
        assert(assoc_map(r) =~= assoc_map(w).remove(w[i].0));
    } else {
        assert(r.drop_last() =~= w.drop_last().remove(i));
        assert(w.drop_last()[i] == w[i]);
        lemma_assoc_remove(w.drop_last(), i);
        assert(w[i].0 != w.last().0);
        assert(r.last() == w.last());
        assert(assoc_map(r) =~= assoc_map(w).remove(w[i].0));
    }
}

/// Index of the pair for group `k`, if any.
pub fn find_group<V>(s: &Vec<(GroupId, V)>, k: GroupId) -> (r: Option<usize>)
    ensures
        match r {
            Some(i) => i < s@.len() && s@[i as int].0 == k,
            None => forall|j: int| 0 <= j < s@.len() ==> (#[trigger] s@[j]).0 != k,
        },
{
    let mut i: usize = 0;
    while i < s.len()
        invariant
            i <= s@.len(),
            forall|j: int| 0 <= j < i ==> (#[trigger] s@[j]).0 != k,
        decreases s@.len() - i,
    {
        if s[i].0 == k {
            return Some(i);
        }
        i = i + 1;
    }
    None
}

} // verus!
