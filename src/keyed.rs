//! Sequences of records with distinct keys, seen as maps.
use vstd::prelude::*;

verus! {

/// No two records of `s` share a key.
pub open spec fn unique_keys<K, T>(s: Seq<T>, key: spec_fn(T) -> K) -> bool {
    forall|i: int, j: int|
        0 <= i < s.len() && 0 <= j < s.len() && i != j ==> key(#[trigger] s[i]) != key(
            #[trigger] s[j],
        )
}

/// The records of `s` by key.
pub open spec fn keyed_map<K, T>(s: Seq<T>, key: spec_fn(T) -> K) -> Map<K, T> {
    Map::new(
        |n: K| exists|i: int| 0 <= i < s.len() && key(s[i]) == n,
        |n: K| s[choose|i: int| 0 <= i < s.len() && key(s[i]) == n],
    )
}

pub proof fn lemma_keyed_at<K, T>(s: Seq<T>, key: spec_fn(T) -> K, i: int)
    requires
        unique_keys(s, key),
        0 <= i < s.len(),
    ensures
        keyed_map(s, key).contains_key(key(s[i])),
        keyed_map(s, key)[key(s[i])] == s[i],
{
    let n = key(s[i]);
    assert(keyed_map(s, key).contains_key(n));
    let k = choose|k: int| 0 <= k < s.len() && key(s[k]) == n;
    assert(k == i);
}

pub proof fn lemma_keyed_push<K, T>(s: Seq<T>, key: spec_fn(T) -> K, p: T)
    requires
        unique_keys(s, key),
        !keyed_map(s, key).contains_key(key(p)),
    ensures
        unique_keys(s.push(p), key),
        keyed_map(s.push(p), key) == keyed_map(s, key).insert(key(p), p),
{
    let t = s.push(p);
    assert forall|i: int, j: int|
        0 <= i < t.len() && 0 <= j < t.len() && i != j implies key(#[trigger] t[i]) != key(
        #[trigger] t[j],
    ) by {
        if i < s.len() && j < s.len() {
            assert(t[i] == s[i] && t[j] == s[j]);
        } else if i < s.len() {
            assert(t[i] == s[i]);
        } else {
            assert(t[j] == s[j]);
        }
    }
    let a = keyed_map(t, key);
    let b = keyed_map(s, key).insert(key(p), p);
    assert forall|n: K| a.contains_key(n) <==> b.contains_key(n) by {
        if a.contains_key(n) && n != key(p) {
            let k = choose|k: int| 0 <= k < t.len() && key(t[k]) == n;
            assert(key(s[k]) == n);
        }
        if b.contains_key(n) && n != key(p) {
            let k = choose|k: int| 0 <= k < s.len() && key(s[k]) == n;
            assert(key(t[k]) == n);
        }
        if n == key(p) {
            assert(key(t[s.len() as int]) == n);
        }
    }
    assert forall|n: K| #[trigger] a.contains_key(n) implies a[n] == b[n] by {
        let k = choose|k: int| 0 <= k < t.len() && key(t[k]) == n;
        lemma_keyed_at(t, key, k);
        if k < s.len() {
            lemma_keyed_at(s, key, k);
        }
    }
    assert(a =~= b);
}

pub proof fn lemma_keyed_remove<K, T>(s: Seq<T>, key: spec_fn(T) -> K, i: int)
    requires
        unique_keys(s, key),
        0 <= i < s.len(),
    ensures
        unique_keys(s.remove(i), key),
        keyed_map(s.remove(i), key) == keyed_map(s, key).remove(key(s[i])),
{
    let t = s.remove(i);
    let n0 = key(s[i]);
    assert forall|a: int, b: int|
        0 <= a < t.len() && 0 <= b < t.len() && a != b implies key(#[trigger] t[a]) != key(
        #[trigger] t[b],
    ) by {
        let sa = if a < i {
            a
        } else {
            a + 1
        };
        let sb = if b < i {
            b
        } else {
            b + 1
        };
        assert(t[a] == s[sa] && t[b] == s[sb]);
    }
    let ma = keyed_map(t, key);
    let mb = keyed_map(s, key).remove(n0);
    assert forall|n: K| ma.contains_key(n) <==> mb.contains_key(n) by {
        if ma.contains_key(n) {
            let k = choose|k: int| 0 <= k < t.len() && key(t[k]) == n;
            let sk = if k < i {
                k
            } else {
                k + 1
            };
            assert(key(s[sk]) == n);
        }
        if mb.contains_key(n) {
            let k = choose|k: int| 0 <= k < s.len() && key(s[k]) == n;
            assert(k != i);
            let tk = if k < i {
                k
            } else {
                k - 1
            };
            assert(key(t[tk]) == n);
        }
    }
    assert forall|n: K| #[trigger] ma.contains_key(n) implies ma[n] == mb[n] by {
        let k = choose|k: int| 0 <= k < t.len() && key(t[k]) == n;
        let sk = if k < i {
            k
        } else {
            k + 1
        };
        lemma_keyed_at(t, key, k);
        assert(t[k] == s[sk]);
        lemma_keyed_at(s, key, sk);
    }
    assert(ma =~= mb);
}

pub proof fn lemma_keyed_len<K, T>(s: Seq<T>, key: spec_fn(T) -> K)
    requires
        unique_keys(s, key),
    ensures
        keyed_map(s, key).dom().finite(),
        keyed_map(s, key).len() == s.len(),
    decreases s.len(),
{
    if s.len() == 0 {
        assert(keyed_map(s, key).dom() =~= Set::<K>::empty());
    } else {
        let r = s.drop_last();
        assert(unique_keys(r, key)) by {
            assert forall|i: int, j: int|
                0 <= i < r.len() && 0 <= j < r.len() && i != j implies key(#[trigger] r[i])
                != key(#[trigger] r[j]) by {
                assert(r[i] == s[i] && r[j] == s[j]);
            }
        }
        lemma_keyed_len(r, key);
        let last = s.last();
        assert(!keyed_map(r, key).contains_key(key(last))) by {
            if keyed_map(r, key).contains_key(key(last)) {
                let k = choose|k: int| 0 <= k < r.len() && key(r[k]) == key(last);
                assert(key(s[k]) == key(s[s.len() - 1]));
            }
        }
        lemma_keyed_push(r, key, last);
        assert(r.push(last) =~= s);
    }
}

} // verus!
