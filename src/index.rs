//! A sequence whose elements have pairwise distinct keys, seen as a map from
//! key to element.
use vstd::prelude::*;

verus! {

/// The map from key to element of `v`.
pub open spec fn index_by<T>(v: Seq<T>, key: spec_fn(T) -> Seq<char>) -> Map<Seq<char>, T> {
    Map::new(
        |k: Seq<char>| exists|i: int| 0 <= i < v.len() && key(v[i]) == k,
        |k: Seq<char>| v[choose|i: int| 0 <= i < v.len() && key(v[i]) == k],
    )
}

/// No two elements of `v` share a key.
pub open spec fn keys_unique<T>(v: Seq<T>, key: spec_fn(T) -> Seq<char>) -> bool {
    forall|i: int, j: int|
        #![trigger v[i], v[j]]
        0 <= i < v.len() && 0 <= j < v.len() && i != j ==> key(v[i]) != key(v[j])
}

pub proof fn lemma_index_at<T>(v: Seq<T>, key: spec_fn(T) -> Seq<char>, i: int)
    requires
        keys_unique(v, key),
        0 <= i < v.len(),
    ensures
        index_by(v, key).contains_key(key(v[i])),
        index_by(v, key)[key(v[i])] == v[i],
{
    let k = key(v[i]);
    assert(exists|j: int| 0 <= j < v.len() && key(v[j]) == k) by {
        assert(0 <= i < v.len() && key(v[i]) == k);
    }
    let j = choose|j: int| 0 <= j < v.len() && key(v[j]) == k;
    assert(v[i] == v[j]) by {
        if i != j {
            assert(key(v[i]) != key(v[j]));
        }
    }
}

pub proof fn lemma_index_empty<T>(v: Seq<T>, key: spec_fn(T) -> Seq<char>)
    requires
        v.len() == 0,
    ensures
        index_by(v, key) == Map::<Seq<char>, T>::empty(),
{
    assert(index_by(v, key) =~= Map::<Seq<char>, T>::empty());
}

pub proof fn lemma_index_update<T>(v: Seq<T>, key: spec_fn(T) -> Seq<char>, i: int, x: T)
    requires
        keys_unique(v, key),
        0 <= i < v.len(),
        key(x) == key(v[i]),
    ensures
        keys_unique(v.update(i, x), key),
        index_by(v.update(i, x), key) == index_by(v, key).insert(key(x), x),
{
    let w = v.update(i, x);
    assert forall|a: int, b: int|
        #![trigger w[a], w[b]]
        0 <= a < w.len() && 0 <= b < w.len() && a != b implies key(w[a]) != key(w[b]) by {
        assert(key(w[a]) == key(v[a]));
        assert(key(w[b]) == key(v[b]));
    }
    let m = index_by(v, key).insert(key(x), x);
    assert forall|k: Seq<char>| #[trigger] index_by(w, key).contains_key(k) <==> m.contains_key(k) by {
        if index_by(w, key).contains_key(k) {
            let j = choose|j: int| 0 <= j < w.len() && key(w[j]) == k;
            if j != i {
                assert(0 <= j < v.len() && key(v[j]) == k);
            }
        }
        if m.contains_key(k) && k != key(x) {
            let j = choose|j: int| 0 <= j < v.len() && key(v[j]) == k;
            assert(0 <= j < w.len() && key(w[j]) == k);
        }
        if k == key(x) {
            assert(0 <= i < w.len() && key(w[i]) == k);
        }
    }
    assert forall|k: Seq<char>| #[trigger] index_by(w, key).contains_key(k) implies index_by(
        w,
        key,
    )[k] == m[k] by {
        let j = choose|j: int| 0 <= j < w.len() && key(w[j]) == k;
        lemma_index_at(w, key, j);
        if j != i {
            lemma_index_at(v, key, j);
        }
    }
    assert(index_by(w, key) =~= m);
}

pub proof fn lemma_index_push<T>(v: Seq<T>, key: spec_fn(T) -> Seq<char>, x: T)
    requires
        keys_unique(v, key),
        !index_by(v, key).contains_key(key(x)),
    ensures
        keys_unique(v.push(x), key),
        index_by(v.push(x), key) == index_by(v, key).insert(key(x), x),
{
    let w = v.push(x);
    let n = v.len() as int;
    assert forall|a: int, b: int|
        #![trigger w[a], w[b]]
        0 <= a < w.len() && 0 <= b < w.len() && a != b implies key(w[a]) != key(w[b]) by {
        if a == n {
            assert(!(0 <= b < v.len() && key(v[b]) == key(x)));
        } else if b == n {
            assert(!(0 <= a < v.len() && key(v[a]) == key(x)));
        }
    }
    let m = index_by(v, key).insert(key(x), x);
    assert forall|k: Seq<char>| #[trigger] index_by(w, key).contains_key(k) <==> m.contains_key(k) by {
        if index_by(w, key).contains_key(k) {
            let j = choose|j: int| 0 <= j < w.len() && key(w[j]) == k;
            if j != n {
                assert(0 <= j < v.len() && key(v[j]) == k);
            }
        }
        if m.contains_key(k) && k != key(x) {
            let j = choose|j: int| 0 <= j < v.len() && key(v[j]) == k;
            assert(0 <= j < w.len() && key(w[j]) == k);
        }
        if k == key(x) {
            assert(0 <= n < w.len() && key(w[n]) == k);
        }
    }
    assert forall|k: Seq<char>| #[trigger] index_by(w, key).contains_key(k) implies index_by(
        w,
        key,
    )[k] == m[k] by {
        let j = choose|j: int| 0 <= j < w.len() && key(w[j]) == k;
        lemma_index_at(w, key, j);
        if j != n {
            lemma_index_at(v, key, j);
        }
    }
    assert(index_by(w, key) =~= m);
}

pub proof fn lemma_index_remove<T>(v: Seq<T>, key: spec_fn(T) -> Seq<char>, i: int)
    requires
        keys_unique(v, key),
        0 <= i < v.len(),
    ensures
        keys_unique(v.remove(i), key),
        index_by(v.remove(i), key) == index_by(v, key).remove(key(v[i])),
{
    let w = v.remove(i);
    assert forall|a: int, b: int|
        #![trigger w[a], w[b]]
        0 <= a < w.len() && 0 <= b < w.len() && a != b implies key(w[a]) != key(w[b]) by {
        let a2 = if a < i { a } else { a + 1 };
        let b2 = if b < i { b } else { b + 1 };
        assert(w[a] == v[a2] && w[b] == v[b2]);
        assert(key(v[a2]) != key(v[b2]));
    }
    let m = index_by(v, key).remove(key(v[i]));
    assert forall|k: Seq<char>| #[trigger] index_by(w, key).contains_key(k) <==> m.contains_key(k) by {
        if index_by(w, key).contains_key(k) {
            let j = choose|j: int| 0 <= j < w.len() && key(w[j]) == k;
            let j2 = if j < i { j } else { j + 1 };
            assert(w[j] == v[j2]);
            assert(0 <= j2 < v.len() && key(v[j2]) == k);
            assert(j2 != i);
        }
        if m.contains_key(k) {
            let j = choose|j: int| 0 <= j < v.len() && key(v[j]) == k;
            assert(j != i);
            let j2 = if j < i { j } else { j - 1 };
            assert(w[j2] == v[j]);
            assert(0 <= j2 < w.len() && key(w[j2]) == k);
        }
    }
    assert forall|k: Seq<char>| #[trigger] index_by(w, key).contains_key(k) implies index_by(
        w,
        key,
    )[k] == m[k] by {
        let j = choose|j: int| 0 <= j < w.len() && key(w[j]) == k;
        let j2 = if j < i { j } else { j + 1 };
        assert(w[j] == v[j2]);
        lemma_index_at(w, key, j);
        lemma_index_at(v, key, j2);
    }
    assert(index_by(w, key) =~= m);
}

} // verus!
