//! A sequence of records with pairwise distinct keys, seen as a map from key
//! to record: the insert-if-absent store that addresses records by key.
use vstd::prelude::*;

verus! {

/// No two records of `s` share a key.
pub open spec fn unique_keys<T, K>(s: Seq<T>, key: spec_fn(T) -> K) -> bool {
    forall|i: int, j: int|
        0 <= i < s.len() && 0 <= j < s.len() && #[trigger] key(s[i]) == #[trigger] key(s[j])
            ==> i == j
}

/// Some record of `s` has key `k`.
pub open spec fn has_key<T, K>(s: Seq<T>, key: spec_fn(T) -> K, k: K) -> bool {
    exists|i: int| 0 <= i < s.len() && #[trigger] key(s[i]) == k
}

/// The map from each key to the record that holds it.
pub open spec fn keyed<T, K>(s: Seq<T>, key: spec_fn(T) -> K) -> Map<K, T> {
    Map::new(
        |k: K| has_key(s, key, k),
        |k: K| s[choose|i: int| 0 <= i < s.len() && #[trigger] key(s[i]) == k],
    )
}

pub proof fn lemma_keyed_at<T, K>(s: Seq<T>, key: spec_fn(T) -> K, i: int)
    requires
        unique_keys(s, key),
        0 <= i < s.len(),
    ensures
        keyed(s, key).contains_key(key(s[i])),
        keyed(s, key)[key(s[i])] == s[i],
{
    let k = key(s[i]);
    assert(has_key(s, key, k));
    let j = choose|j: int| 0 <= j < s.len() && #[trigger] key(s[j]) == k;
    assert(key(s[j]) == key(s[i]));
}

pub proof fn lemma_keyed_update<T, K>(s: Seq<T>, key: spec_fn(T) -> K, i: int, x: T)
    requires
        unique_keys(s, key),
        0 <= i < s.len(),
        key(x) == key(s[i]),
    ensures
        unique_keys(s.update(i, x), key),
        keyed(s.update(i, x), key) == keyed(s, key).insert(key(x), x),
{
    let t = s.update(i, x);
    assert forall|a: int, b: int|
        0 <= a < t.len() && 0 <= b < t.len() && #[trigger] key(t[a]) == #[trigger] key(t[b])
        implies a == b by {
        assert(key(t[a]) == key(s[a]));
        assert(key(t[b]) == key(s[b]));
    }
    let m = keyed(t, key);
    let n = keyed(s, key).insert(key(x), x);
    assert forall|k: K| m.contains_key(k) <==> n.contains_key(k) by {
        if m.contains_key(k) {
            let a = choose|a: int| 0 <= a < t.len() && #[trigger] key(t[a]) == k;
            assert(key(t[a]) == key(s[a]));
            assert(has_key(s, key, k));
        }
        if n.contains_key(k) && k != key(x) {
            let a = choose|a: int| 0 <= a < s.len() && #[trigger] key(s[a]) == k;
            assert(key(t[a]) == key(s[a]));
            assert(has_key(t, key, k));
        }
        if k == key(x) {
            assert(key(t[i]) == k);
        }
    }
    assert forall|k: K| m.contains_key(k) implies m[k] == n[k] by {
        let a = choose|a: int| 0 <= a < t.len() && #[trigger] key(t[a]) == k;
        lemma_keyed_at(t, key, a);
        if a == i {
        } else {
            assert(key(t[a]) == key(s[a]));
            lemma_keyed_at(s, key, a);
        }
    }
    assert(m =~= n);
}

pub proof fn lemma_keyed_push<T, K>(s: Seq<T>, key: spec_fn(T) -> K, x: T)
    requires
        unique_keys(s, key),
        !has_key(s, key, key(x)),
    ensures
        unique_keys(s.push(x), key),
        keyed(s.push(x), key) == keyed(s, key).insert(key(x), x),
{
    let t = s.push(x);
    let n = s.len() as int;
    assert forall|a: int, b: int|
        0 <= a < t.len() && 0 <= b < t.len() && #[trigger] key(t[a]) == #[trigger] key(t[b])
        implies a == b by {
        if a < n && b == n {
            assert(key(s[a]) == key(x));
        }
        if b < n && a == n {
            assert(key(s[b]) == key(x));
        }
        if a < n && b < n {
            assert(key(s[a]) == key(s[b]));
        }
    }
    let m = keyed(t, key);
    let e = keyed(s, key).insert(key(x), x);
    assert forall|k: K| m.contains_key(k) <==> e.contains_key(k) by {
        if m.contains_key(k) && k != key(x) {
            let a = choose|a: int| 0 <= a < t.len() && #[trigger] key(t[a]) == k;
            assert(a < n);
            assert(key(s[a]) == k);
        }
        if e.contains_key(k) && k != key(x) {
            let a = choose|a: int| 0 <= a < s.len() && #[trigger] key(s[a]) == k;
            assert(key(t[a]) == k);
        }
        if k == key(x) {
            assert(key(t[n]) == k);
        }
    }
    assert forall|k: K| m.contains_key(k) implies m[k] == e[k] by {
        let a = choose|a: int| 0 <= a < t.len() && #[trigger] key(t[a]) == k;
        lemma_keyed_at(t, key, a);
        if a < n {
            assert(key(s[a]) == k);
            lemma_keyed_at(s, key, a);
        }
    }
    assert(m =~= e);
}

} // verus!
