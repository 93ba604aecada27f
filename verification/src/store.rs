//! Association sequences: the world state keeps each of its maps as a vector
//! of key-value pairs in insertion order, with all keys distinct.
//!
//! The spec functions here give such a sequence its map reading (key
//! membership, lookup), and the lemmas relate that reading to pushing,
//! updating and removing entries.

use vstd::prelude::*;

use crate::types::AsteroidKind;
use crate::types::Coord;

verus! {

/// All keys of the association sequence are distinct.
pub open spec fn sl_uniq<K, V>(s: Seq<(K, V)>) -> bool {
    forall|i: int, j: int|
        0 <= i < j < s.len() ==> #[trigger] s[i].0 != #[trigger] s[j].0
}

/// Some entry carries the key `k`.
pub open spec fn sl_has<K, V>(s: Seq<(K, V)>, k: K) -> bool {
    exists|i: int| 0 <= i < s.len() && #[trigger] s[i].0 == k
}

/// The index of the entry carrying `k` (meaningful only when `sl_has`
/// holds and the keys are distinct).
pub open spec fn sl_idx<K, V>(s: Seq<(K, V)>, k: K) -> int {
    choose|i: int| 0 <= i < s.len() && #[trigger] s[i].0 == k
}

/// The value stored under `k`, if any.
pub open spec fn sl_get<K, V>(s: Seq<(K, V)>, k: K) -> Option<V> {
    if sl_has(s, k) {
        Some(s[sl_idx(s, k)].1)
    } else {
        None
    }
}

/// An entry at index `i` with key `k` pins membership, index and lookup.
pub proof fn lemma_sl_idx_of<K, V>(s: Seq<(K, V)>, k: K, i: int)
    requires
        sl_uniq(s),
        0 <= i < s.len(),
        s[i].0 == k,
    ensures
        sl_has(s, k),
        sl_idx(s, k) == i,
        sl_get(s, k) == Some(s[i].1),
{
    assert(sl_has(s, k));
    let j = sl_idx(s, k);
    assert(0 <= j < s.len() && s[j].0 == k);
    if j < i {
        assert(s[j].0 != s[i].0);
    } else if i < j {
        assert(s[i].0 != s[j].0);
    }
}

/// Pushing a fresh key keeps the keys distinct, binds that key to the new
/// value, and leaves every other key's binding as it was.
pub proof fn lemma_sl_push<K, V>(s: Seq<(K, V)>, k: K, v: V)
    requires
        sl_uniq(s),
        !sl_has(s, k),
    ensures
        sl_uniq(s.push((k, v))),
        sl_get(s.push((k, v)), k) == Some(v),
        forall|k2: K| k2 != k ==> sl_get(s.push((k, v)), k2) == sl_get(s, k2),
        forall|k2: K| #[trigger] sl_has(s.push((k, v)), k2) <==> (sl_has(s, k2) || k2 == k),
{
    let s2 = s.push((k, v));
    assert forall|i: int, j: int| 0 <= i < j < s2.len() implies #[trigger] s2[i].0 != #[trigger] s2[j].0 by {
        if j == s.len() {
            assert(s2[i] == s[i]);
            if s[i].0 == k {
                assert(sl_has(s, k));
            }
        } else {
            assert(s2[i] == s[i]);
            assert(s2[j] == s[j]);
        }
    }
    lemma_sl_idx_of(s2, k, s.len() as int);
    assert forall|k2: K| k2 != k implies sl_get(s2, k2) == sl_get(s, k2) by {
        if sl_has(s, k2) {
            let i = sl_idx(s, k2);
            assert(0 <= i < s.len() && s[i].0 == k2);
            assert(s2[i] == s[i]);
            lemma_sl_idx_of(s, k2, i);
            lemma_sl_idx_of(s2, k2, i);
        } else {
            if sl_has(s2, k2) {
                let i = sl_idx(s2, k2);
                assert(0 <= i < s2.len() && s2[i].0 == k2);
                assert(i < s.len());
                assert(s2[i] == s[i]);
                assert(sl_has(s, k2));
            }
        }
    }
    assert forall|k2: K| #[trigger] sl_has(s2, k2) <==> (sl_has(s, k2) || k2 == k) by {
        if sl_has(s, k2) {
            let i = sl_idx(s, k2);
            assert(0 <= i < s.len() && s[i].0 == k2);
            assert(s2[i] == s[i]);
            assert(sl_has(s2, k2));
        }
        if k2 == k {
            assert(sl_has(s2, k2));
        }
        if sl_has(s2, k2) && k2 != k {
            let i = sl_idx(s2, k2);
            assert(0 <= i < s2.len() && s2[i].0 == k2);
            assert(i < s.len());
            assert(s2[i] == s[i]);
            assert(sl_has(s, k2));
        }
    }
}

/// Overwriting the entry at `i` in place (same key, new value) keeps the
/// keys distinct, rebinds that key, and leaves every other key's binding
/// as it was.
pub proof fn lemma_sl_update<K, V>(s: Seq<(K, V)>, i: int, k: K, v: V)
    requires
        sl_uniq(s),
        0 <= i < s.len(),
        s[i].0 == k,
    ensures
        sl_uniq(s.update(i, (k, v))),
        sl_get(s.update(i, (k, v)), k) == Some(v),
        forall|k2: K| k2 != k ==> sl_get(s.update(i, (k, v)), k2) == sl_get(s, k2),
        forall|k2: K| #[trigger] sl_has(s.update(i, (k, v)), k2) <==> sl_has(s, k2),
{
    let s2 = s.update(i, (k, v));
    assert forall|j: int| 0 <= j < s.len() implies #[trigger] s2[j].0 == s[j].0 by {
        if j != i {
            assert(s2[j] == s[j]);
        }
    }
    assert forall|a: int, b: int| 0 <= a < b < s2.len() implies #[trigger] s2[a].0 != #[trigger] s2[b].0 by {
        assert(s2[a].0 == s[a].0);
        assert(s2[b].0 == s[b].0);
    }
    lemma_sl_idx_of(s2, k, i);
    assert forall|k2: K| k2 != k implies sl_get(s2, k2) == sl_get(s, k2) by {
        if sl_has(s, k2) {
            let j = sl_idx(s, k2);
            assert(0 <= j < s.len() && s[j].0 == k2);
            lemma_sl_idx_of(s, k2, j);
            assert(j != i);
            assert(s2[j] == s[j]);
            lemma_sl_idx_of(s2, k2, j);
        } else {
            if sl_has(s2, k2) {
                let j = sl_idx(s2, k2);
                assert(0 <= j < s2.len() && s2[j].0 == k2);
                assert(s[j].0 == k2);
                assert(sl_has(s, k2));
            }
        }
    }
    assert forall|k2: K| #[trigger] sl_has(s2, k2) <==> sl_has(s, k2) by {
        if sl_has(s, k2) {
            let j = sl_idx(s, k2);
            assert(0 <= j < s.len() && s[j].0 == k2);
            assert(s2[j].0 == k2);
            assert(sl_has(s2, k2));
        }
        if sl_has(s2, k2) {
            let j = sl_idx(s2, k2);
            assert(0 <= j < s2.len() && s2[j].0 == k2);
            assert(s[j].0 == k2);
            assert(sl_has(s, k2));
        }
    }
}

/// Removing the entry at `i` keeps the keys distinct, drops that entry's
/// key, and leaves every other key's binding as it was.
pub proof fn lemma_sl_remove<K, V>(s: Seq<(K, V)>, i: int)
    requires
        sl_uniq(s),
        0 <= i < s.len(),
    ensures
        sl_uniq(s.remove(i)),
        !sl_has(s.remove(i), s[i].0),
        forall|k2: K| k2 != s[i].0 ==> sl_get(s.remove(i), k2) == sl_get(s, k2),
        forall|k2: K| k2 != s[i].0 ==> (#[trigger] sl_has(s.remove(i), k2) <==> sl_has(s, k2)),
{
    let s2 = s.remove(i);
    let k = s[i].0;
    assert forall|j: int| 0 <= j < s2.len() implies #[trigger] s2[j].0 == (if j < i { s[j].0 } else { s[j + 1].0 }) by {
        assert(s2[j] == (if j < i { s[j] } else { s[j + 1] }));
    }
    assert forall|a: int, b: int| 0 <= a < b < s2.len() implies #[trigger] s2[a].0 != #[trigger] s2[b].0 by {
        let a0 = if a < i { a } else { a + 1 };
        let b0 = if b < i { b } else { b + 1 };
        assert(s2[a].0 == s[a0].0);
        assert(s2[b].0 == s[b0].0);
        assert(s[a0].0 != s[b0].0);
    }
    if sl_has(s2, k) {
        let j = sl_idx(s2, k);
        assert(0 <= j < s2.len() && s2[j].0 == k);
        let j0 = if j < i { j } else { j + 1 };
        assert(s[j0].0 == k);
        assert(j0 != i ==> s[j0].0 != s[i].0);
        assert(false);
    }
    assert forall|k2: K| k2 != k implies sl_get(s2, k2) == sl_get(s, k2) && (sl_has(s2, k2) <==> sl_has(s, k2)) by {
        if sl_has(s, k2) {
            let j = sl_idx(s, k2);
            assert(0 <= j < s.len() && s[j].0 == k2);
            lemma_sl_idx_of(s, k2, j);
            assert(j != i);
            let j2 = if j < i { j } else { j - 1 };
            assert(s2[j2] == s[j]);
            lemma_sl_idx_of(s2, k2, j2);
        } else {
            if sl_has(s2, k2) {
                let j = sl_idx(s2, k2);
                assert(0 <= j < s2.len() && s2[j].0 == k2);
                let j0 = if j < i { j } else { j + 1 };
                assert(s[j0].0 == k2);
                assert(sl_has(s, k2));
            }
        }
    }
}

/// Index of the entry keyed by `k` in a vector keyed by account numbers.
pub fn find_u64_key<V>(v: &Vec<(u64, V)>, k: u64) -> (r: Option<usize>)
    requires
        sl_uniq(v@),
    ensures
        match r {
            Some(i) => sl_has(v@, k) && i < v@.len() && v@[i as int].0 == k && i as int == sl_idx(v@, k),
            None => !sl_has(v@, k),
        },
{
    let n = v.len();
    let mut i: usize = 0;
    while i < n
        invariant
            i <= n,
            n == v@.len(),
            sl_uniq(v@),
            forall|j: int| 0 <= j < i ==> #[trigger] v@[j].0 != k,
        decreases n - i,
    {
        if v[i].0 == k {
            proof {
                lemma_sl_idx_of(v@, k, i as int);
            }
            return Some(i);
        }
        i += 1;
    }
    None
}

/// Index of the entry keyed by `c` in a vector keyed by coordinates.
pub fn find_coord_key<V>(v: &Vec<(Coord, V)>, c: Coord) -> (r: Option<usize>)
    requires
        sl_uniq(v@),
    ensures
        match r {
            Some(i) => sl_has(v@, c) && i < v@.len() && v@[i as int].0 == c && i as int == sl_idx(v@, c),
            None => !sl_has(v@, c),
        },
{
    let n = v.len();
    let mut i: usize = 0;
    while i < n
        invariant
            i <= n,
            n == v@.len(),
            sl_uniq(v@),
            forall|j: int| 0 <= j < i ==> #[trigger] v@[j].0 != c,
        decreases n - i,
    {
        let e = v[i].0;
        if e.x == c.x && e.y == c.y {
            proof {
                lemma_sl_idx_of(v@, c, i as int);
            }
            return Some(i);
        }
        i += 1;
    }
    None
}

/// Index of the ledger entry keyed by account `user` and kind `kind`.
pub fn find_res_key(v: &Vec<((u64, AsteroidKind), u64)>, user: u64, kind: AsteroidKind) -> (r: Option<
    usize,
>)
    requires
        sl_uniq(v@),
    ensures
        match r {
            Some(i) => sl_has(v@, (user, kind)) && i < v@.len() && v@[i as int].0 == (user, kind)
                && i as int == sl_idx(v@, (user, kind)),
            None => !sl_has(v@, (user, kind)),
        },
{
    let n = v.len();
    let mut i: usize = 0;
    while i < n
        invariant
            i <= n,
            n == v@.len(),
            sl_uniq(v@),
            forall|j: int| 0 <= j < i ==> #[trigger] v@[j].0 != (user, kind),
        decreases n - i,
    {
        let e = v[i].0;
        if e.0 == user && e.1 == kind {
            proof {
                lemma_sl_idx_of(v@, (user, kind), i as int);
            }
            return Some(i);
        }
        i += 1;
    }
    None
}

} // verus!
