//! Abstract lookup tables: sequences of (key, value) pairs read by the first
//! occurrence of a key and written by replacing that occurrence or appending.
//! This is the model of the indexes of the shortcut database.

use vstd::prelude::*;

verus! {

/// `i` is the first position of key `k` in `t`.
pub open spec fn is_first<K, V>(t: Seq<(K, V)>, k: K, i: int) -> bool {
    &&& 0 <= i < t.len()
    &&& t[i].0 == k
    &&& forall|j: int| 0 <= j < i ==> t[j].0 != k
}

/// Key `k` occurs in `t`.
pub open spec fn has_key<K, V>(t: Seq<(K, V)>, k: K) -> bool {
    exists|i: int| 0 <= i < t.len() && t[i].0 == k
}

/// The first position of key `k` in `t`.
pub open spec fn first_index<K, V>(t: Seq<(K, V)>, k: K) -> int {
    choose|i: int| is_first(t, k, i)
}

/// The value stored for `k`, if any.
pub open spec fn table_get<K, V>(t: Seq<(K, V)>, k: K) -> Option<V> {
    if has_key(t, k) {
        Some(t[first_index(t, k)].1)
    } else {
        None
    }
}

/// `t` with the value for `k` set to `v`: the first occurrence of `k` is
/// replaced, or the pair is appended when `k` does not occur.
pub open spec fn table_insert<K, V>(t: Seq<(K, V)>, k: K, v: V) -> Seq<(K, V)> {
    if has_key(t, k) {
        t.update(first_index(t, k), (k, v))
    } else {
        t.push((k, v))
    }
}

/// A key that occurs has a first position, and it is the only one.
pub proof fn lemma_first_index<K, V>(t: Seq<(K, V)>, k: K)
    requires
        has_key(t, k),
    ensures
        is_first(t, k, first_index(t, k)),
    decreases t.len(),
{
    if t[t.len() - 1].0 == k && !has_key(t.drop_last(), k) {
        let i = t.len() - 1;
        assert forall|j: int| 0 <= j < i implies t[j].0 != k by {
            if t[j].0 == k {
                assert(t.drop_last()[j].0 == k);
            }
        }
        assert(is_first(t, k, i));
    } else {
        let w = choose|i: int| 0 <= i < t.len() && t[i].0 == k;
        let d = t.drop_last();
        assert(has_key(d, k)) by {
            if t[t.len() - 1].0 != k {
                assert(d[w].0 == k);
            }
        }
        lemma_first_index(d, k);
        let i = first_index(d, k);
        assert(is_first(t, k, i)) by {
            assert(t[i] == d[i]);
            assert forall|j: int| 0 <= j < i implies t[j].0 != k by {
                assert(t[j] == d[j]);
            }
        }
    }
}

/// The first position of a key is unique.
pub proof fn lemma_first_unique<K, V>(t: Seq<(K, V)>, k: K, i: int)
    requires
        is_first(t, k, i),
    ensures
        first_index(t, k) == i,
{
    lemma_first_index(t, k);
    let f = first_index(t, k);
    if f < i {
        assert(t[f].0 != k);
    } else if f > i {
        assert(t[i].0 != k);
    }
}

/// What a read gives back of a write: after setting `k` to `v`, reading `k`
/// gives `v`, and reading any other key gives what it gave before.
pub proof fn lemma_get_insert<K, V>(t: Seq<(K, V)>, k: K, v: V, k2: K)
    ensures
        table_get(table_insert(t, k, v), k2) == if k2 == k {
            Some(v)
        } else {
            table_get(t, k2)
        },
{
    let u = table_insert(t, k, v);
    if has_key(t, k) {
        lemma_first_index(t, k);
        let f = first_index(t, k);
        if k2 == k {
            assert(is_first(u, k, f));
            lemma_first_unique(u, k, f);
        } else {
            assert(has_key(u, k2) == has_key(t, k2)) by {
                if has_key(t, k2) {
                    let w = choose|i: int| 0 <= i < t.len() && t[i].0 == k2;
                    assert(u[w].0 == k2);
                }
                if has_key(u, k2) {
                    let w = choose|i: int| 0 <= i < u.len() && u[i].0 == k2;
                    assert(t[w].0 == k2);
                }
            }
            if has_key(t, k2) {
                lemma_first_index(t, k2);
                let g = first_index(t, k2);
                assert(is_first(u, k2, g));
                lemma_first_unique(u, k2, g);
            }
        }
    } else {
        if k2 == k {
            let n = t.len() as int;
            assert forall|j: int| 0 <= j < n implies u[j].0 != k by {
                assert(u[j] == t[j]);
            }
            assert(is_first(u, k, n));
            lemma_first_unique(u, k, n);
        } else {
            assert(has_key(u, k2) == has_key(t, k2)) by {
                if has_key(t, k2) {
                    let w = choose|i: int| 0 <= i < t.len() && t[i].0 == k2;
                    assert(u[w].0 == k2);
                }
                if has_key(u, k2) {
                    let w = choose|i: int| 0 <= i < u.len() && u[i].0 == k2;
                    assert(w < t.len());
                    assert(t[w].0 == k2);
                }
            }
            if has_key(t, k2) {
                lemma_first_index(t, k2);
                let g = first_index(t, k2);
                assert(is_first(u, k2, g));
                lemma_first_unique(u, k2, g);
            }
        }
    }
}

} // verus!
