//! Sequences of keys, as the containers of the store keep them: a key is
//! looked up at the first position where it stands.

use vstd::prelude::*;

verus! {

/// Whether `i` is the first position of `key` in `keys`.
pub open spec fn is_first<K>(keys: Seq<K>, key: K, i: int) -> bool {
    &&& 0 <= i < keys.len()
    &&& keys[i] == key
    &&& forall|j: int| 0 <= j < i ==> keys[j] != key
}

/// Whether `key` occurs in `keys`.
pub open spec fn occurs<K>(keys: Seq<K>, key: K) -> bool {
    exists|i: int| is_first(keys, key, i)
}

/// The first position of `key` in `keys`.
pub open spec fn first_of<K>(keys: Seq<K>, key: K) -> int
    recommends
        occurs(keys, key),
{
    choose|i: int| is_first(keys, key, i)
}

/// A key has one first position.
pub proof fn lemma_first<K>(keys: Seq<K>, key: K, i: int)
    requires
        is_first(keys, key, i),
    ensures
        occurs(keys, key),
        first_of(keys, key) == i,
{
    let chosen = first_of(keys, key);
    assert(is_first(keys, key, chosen));
}

/// A key that stands somewhere in `keys` has a first position.
pub proof fn lemma_occurs<K>(keys: Seq<K>, key: K, i: int)
    requires
        0 <= i < keys.len(),
        keys[i] == key,
    ensures
        occurs(keys, key),
        0 <= first_of(keys, key) <= i,
        keys[first_of(keys, key)] == key,
    decreases i,
{
    if exists|j: int| 0 <= j < i && keys[j] == key {
        let j = choose|j: int| 0 <= j < i && keys[j] == key;
        lemma_occurs(keys, key, j);
    } else {
        lemma_first(keys, key, i);
    }
}

/// How the first positions change when a key is appended.
pub proof fn lemma_push<K>(keys: Seq<K>, added: K, key: K)
    ensures
        occurs(keys.push(added), key) == (occurs(keys, key) || key == added),
        occurs(keys, key) ==> first_of(keys.push(added), key) == first_of(keys, key),
        !occurs(keys, key) && key == added ==> first_of(keys.push(added), key) == keys.len(),
{
    let after = keys.push(added);
    if occurs(keys, key) {
        let i = first_of(keys, key);
        assert(is_first(after, key, i));
        lemma_first(after, key, i);
    } else {
        assert forall|j: int| 0 <= j < keys.len() implies keys[j] != key by {
            if keys[j] == key {
                lemma_occurs(keys, key, j);
            }
        }
        if key == added {
            lemma_first(after, key, keys.len() as int);
        } else if occurs(after, key) {
            let i = first_of(after, key);
            assert(keys[i] == key);
        }
    }
}

} // verus!
