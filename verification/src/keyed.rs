//! Sequences read as maps: a sequence whose items have distinct keys
//! stands for the map from each item's key to the item.

use vstd::prelude::*;

verus! {

/// No two items of `s` share a key.
pub open spec fn unique_by<T, K>(s: Seq<T>, kf: spec_fn(T) -> K) -> bool {
    forall|i: int, j: int| 0 <= i < s.len() && 0 <= j < s.len() && i != j ==> kf(#[trigger] s[i]) != kf(#[trigger] s[j])
}

/// Some item of `s` has key `k`.
pub open spec fn has_key_by<T, K>(s: Seq<T>, kf: spec_fn(T) -> K, k: K) -> bool {
    exists|i: int| 0 <= i < s.len() && kf(#[trigger] s[i]) == k
}

/// The items of `s` as a map from key to item.
pub open spec fn keyed_map<T, K>(s: Seq<T>, kf: spec_fn(T) -> K) -> Map<K, T> {
    Map::new(
        |k: K| has_key_by(s, kf, k),
        |k: K| s[choose|i: int| 0 <= i < s.len() && kf(#[trigger] s[i]) == k],
    )
}

/// With distinct keys the map sends each item's key to that item.
pub proof fn lemma_keyed_at<T, K>(s: Seq<T>, kf: spec_fn(T) -> K, i: int)
    requires
        unique_by(s, kf),
        0 <= i < s.len(),
    ensures
        keyed_map(s, kf).contains_key(kf(s[i])),
        keyed_map(s, kf)[kf(s[i])] == s[i],
{
    let k = kf(s[i]);
    assert(has_key_by(s, kf, k));
    let c = choose|j: int| 0 <= j < s.len() && kf(#[trigger] s[j]) == k;
    assert(c == i);
}

/// Replacing the item at `i` by one with the same key updates the map
/// at that key.
pub proof fn lemma_keyed_update<T, K>(s: Seq<T>, kf: spec_fn(T) -> K, i: int, x: T)
    requires
        unique_by(s, kf),
        0 <= i < s.len(),
        kf(x) == kf(s[i]),
    ensures
        unique_by(s.update(i, x), kf),
        keyed_map(s.update(i, x), kf) == keyed_map(s, kf).insert(kf(x), x),
{
    let g = s.update(i, x);
    assert(unique_by(g, kf)) by {
        assert forall|a: int, b: int| 0 <= a < g.len() && 0 <= b < g.len() && a != b
            implies kf(#[trigger] g[a]) != kf(#[trigger] g[b]) by {
            assert(kf(g[a]) == kf(s[a]));
            assert(kf(g[b]) == kf(s[b]));
        }
    }
    let m1 = keyed_map(g, kf);
    let m2 = keyed_map(s, kf).insert(kf(x), x);
    assert forall|k: K| m1.contains_key(k) <==> m2.contains_key(k) by {
        if has_key_by(g, kf, k) {
            let j = choose|j: int| 0 <= j < g.len() && kf(#[trigger] g[j]) == k;
            assert(kf(s[j]) == k);
        }
        if has_key_by(s, kf, k) {
            let j = choose|j: int| 0 <= j < s.len() && kf(#[trigger] s[j]) == k;
            assert(kf(g[j]) == k);
        }
        if k == kf(x) {
            assert(kf(g[i]) == k);
        }
    }
    assert forall|k: K| m1.contains_key(k) implies m1[k] == m2[k] by {
        let j = choose|j: int| 0 <= j < g.len() && kf(#[trigger] g[j]) == k;
        lemma_keyed_at(g, kf, j);
        if j != i {
            lemma_keyed_at(s, kf, j);
        }
    }
    assert(m1 =~= m2);
}

/// Appending an item with a fresh key inserts it into the map.
pub proof fn lemma_keyed_push<T, K>(s: Seq<T>, kf: spec_fn(T) -> K, x: T)
    requires
        unique_by(s, kf),
        !has_key_by(s, kf, kf(x)),
    ensures
        unique_by(s.push(x), kf),
        keyed_map(s.push(x), kf) == keyed_map(s, kf).insert(kf(x), x),
{
    let g = s.push(x);
    assert(unique_by(g, kf)) by {
        assert forall|a: int, b: int| 0 <= a < g.len() && 0 <= b < g.len() && a != b
            implies kf(#[trigger] g[a]) != kf(#[trigger] g[b]) by {
            if a == s.len() as int {
                assert(kf(s[b]) != kf(x));
            } else if b == s.len() as int {
                assert(kf(s[a]) != kf(x));
            }
        }
    }
    let m1 = keyed_map(g, kf);
    let m2 = keyed_map(s, kf).insert(kf(x), x);
    assert forall|k: K| m1.contains_key(k) <==> m2.contains_key(k) by {
        if has_key_by(g, kf, k) {
            let j = choose|j: int| 0 <= j < g.len() && kf(#[trigger] g[j]) == k;
            if j < s.len() {
                assert(kf(s[j]) == k);
            }
        }
        if has_key_by(s, kf, k) {
            let j = choose|j: int| 0 <= j < s.len() && kf(#[trigger] s[j]) == k;
            assert(kf(g[j]) == k);
        }
        if k == kf(x) {
            assert(kf(g[s.len() as int]) == k);
        }
    }
    assert forall|k: K| m1.contains_key(k) implies m1[k] == m2[k] by {
        let j = choose|j: int| 0 <= j < g.len() && kf(#[trigger] g[j]) == k;
        lemma_keyed_at(g, kf, j);
        if j < s.len() {
            lemma_keyed_at(s, kf, j);
        }
    }
    assert(m1 =~= m2);
}

/// Removing the item at `i` removes its key from the map.
pub proof fn lemma_keyed_remove<T, K>(s: Seq<T>, kf: spec_fn(T) -> K, i: int)
    requires
        unique_by(s, kf),
        0 <= i < s.len(),
    ensures
        unique_by(s.remove(i), kf),
        keyed_map(s.remove(i), kf) == keyed_map(s, kf).remove(kf(s[i])),
{
    let g = s.remove(i);
    let ki = kf(s[i]);
    assert(unique_by(g, kf)) by {
        assert forall|a: int, b: int| 0 <= a < g.len() && 0 <= b < g.len() && a != b
            implies kf(#[trigger] g[a]) != kf(#[trigger] g[b]) by {
            let a2 = if a < i { a } else { a + 1 };
            let b2 = if b < i { b } else { b + 1 };
            assert(g[a] == s[a2]);
            assert(g[b] == s[b2]);
        }
    }
    let m1 = keyed_map(g, kf);
    let m2 = keyed_map(s, kf).remove(ki);
    assert forall|k: K| m1.contains_key(k) <==> m2.contains_key(k) by {
        if has_key_by(g, kf, k) {
            let j = choose|j: int| 0 <= j < g.len() && kf(#[trigger] g[j]) == k;
            let j2 = if j < i { j } else { j + 1 };
            assert(g[j] == s[j2]);
            assert(kf(s[j2]) == k);
            assert(j2 != i);
        }
        if has_key_by(s, kf, k) && k != ki {
            let j = choose|j: int| 0 <= j < s.len() && kf(#[trigger] s[j]) == k;
            assert(j != i);
            let j2 = if j < i { j } else { j - 1 };
            assert(g[j2] == s[j]);
            assert(kf(g[j2]) == k);
        }
    }
    assert forall|k: K| m1.contains_key(k) implies m1[k] == m2[k] by {
        let j = choose|j: int| 0 <= j < g.len() && kf(#[trigger] g[j]) == k;
        let j2 = if j < i { j } else { j + 1 };
        assert(g[j] == s[j2]);
        lemma_keyed_at(g, kf, j);
        lemma_keyed_at(s, kf, j2);
    }
    assert(m1 =~= m2);
}

/// A key absent from the sequence is absent from the map.
pub proof fn lemma_keyed_absent<T, K>(s: Seq<T>, kf: spec_fn(T) -> K, k: K)
    requires
        !has_key_by(s, kf, k),
    ensures
        !keyed_map(s, kf).contains_key(k),
        keyed_map(s, kf).remove(k) == keyed_map(s, kf),
{
    assert(keyed_map(s, kf).remove(k) =~= keyed_map(s, kf));
}

} // verus!
