//! Association lists as maps.
//!
//! The stores keep their records in vectors and find them by linear
//! search. What a store holds is stated as a `Map`; this module says which
//! map a list of entries with distinct keys stands for, and how pushing
//! and removing an entry changes it.

use vstd::prelude::*;

verus! {

/// No key occurs twice.
pub open spec fn keys_distinct<K, V>(entries: Seq<(K, V)>) -> bool {
    forall|i: int, j: int|
        0 <= i < entries.len() && 0 <= j < entries.len() && i != j ==> (#[trigger] entries[i]).0
            != (#[trigger] entries[j]).0
}

/// Some entry has the key.
pub open spec fn has_key<K, V>(entries: Seq<(K, V)>, key: K) -> bool {
    exists|i: int| 0 <= i < entries.len() && (#[trigger] entries[i]).0 == key
}

/// The place of an entry with the key.
pub open spec fn index_of_key<K, V>(entries: Seq<(K, V)>, key: K) -> int {
    choose|i: int| 0 <= i < entries.len() && (#[trigger] entries[i]).0 == key
}

/// The map that the entries stand for.
pub open spec fn as_map<K, V>(entries: Seq<(K, V)>) -> Map<K, V> {
    Map::new(|key: K| has_key(entries, key), |key: K| entries[index_of_key(entries, key)].1)
}

/// An entry of a list with distinct keys is what the map holds under its key.
pub proof fn lemma_as_map_entry<K, V>(entries: Seq<(K, V)>, i: int)
    requires
        keys_distinct(entries),
        0 <= i < entries.len(),
    ensures
        as_map(entries).contains_key(entries[i].0),
        as_map(entries)[entries[i].0] == entries[i].1,
{
    let key = entries[i].0;
    assert(has_key(entries, key));
    let j = index_of_key(entries, key);
    assert(0 <= j < entries.len() && entries[j].0 == key);
    assert(i == j);
}

/// A key that no entry has is no key of the map.
pub proof fn lemma_as_map_absent<K, V>(entries: Seq<(K, V)>, key: K)
    requires
        forall|i: int| 0 <= i < entries.len() ==> (#[trigger] entries[i]).0 != key,
    ensures
        !as_map(entries).contains_key(key),
{
    if has_key(entries, key) {
        let i = index_of_key(entries, key);
        assert(entries[i].0 == key);
    }
}

/// A key of the map is the key of some entry, which holds the map's value.
pub proof fn lemma_as_map_witness<K, V>(entries: Seq<(K, V)>, key: K) -> (i: int)
    requires
        as_map(entries).contains_key(key),
    ensures
        0 <= i < entries.len(),
        entries[i].0 == key,
        entries[i].1 == as_map(entries)[key],
{
    assert(has_key(entries, key));
    index_of_key(entries, key)
}

/// Pushing an entry under a new key inserts it into the map.
pub proof fn lemma_as_map_push<K, V>(entries: Seq<(K, V)>, key: K, value: V)
    requires
        keys_distinct(entries),
        !has_key(entries, key),
    ensures
        keys_distinct(entries.push((key, value))),
        as_map(entries.push((key, value))) == as_map(entries).insert(key, value),
{
    let after = entries.push((key, value));
    assert forall|i: int, j: int|
        0 <= i < after.len() && 0 <= j < after.len() && i != j implies (#[trigger] after[i]).0 != (
    #[trigger] after[j]).0 by {
        if i < entries.len() {
            assert(after[i] == entries[i]);
        }
        if j < entries.len() {
            assert(after[j] == entries[j]);
        }
    }
    assert forall|k: K| #[trigger]
        as_map(after).contains_key(k) <==> as_map(entries).insert(key, value).contains_key(k) by {
        if has_key(after, k) {
            let i = index_of_key(after, k);
            if i < entries.len() {
                assert(after[i] == entries[i]);
                assert(has_key(entries, k));
            }
        }
        if has_key(entries, k) {
            let i = index_of_key(entries, k);
            assert(after[i] == entries[i]);
            assert(has_key(after, k));
        }
        if k == key {
            assert(after[entries.len() as int].0 == key);
            assert(has_key(after, k));
        }
    }
    assert forall|k: K| #[trigger] as_map(after).contains_key(k) implies as_map(after)[k]
        == as_map(entries).insert(key, value)[k] by {
        let i = lemma_as_map_witness(after, k);
        if i < entries.len() {
            assert(after[i] == entries[i]);
            lemma_as_map_entry(entries, i);
        }
    }
    assert(as_map(after) =~= as_map(entries).insert(key, value));
}

/// Removing an entry removes its key from the map.
pub proof fn lemma_as_map_remove<K, V>(entries: Seq<(K, V)>, i: int)
    requires
        keys_distinct(entries),
        0 <= i < entries.len(),
    ensures
        keys_distinct(entries.remove(i)),
        as_map(entries.remove(i)) == as_map(entries).remove(entries[i].0),
{
    let after = entries.remove(i);
    let key = entries[i].0;
    assert forall|a: int| 0 <= a < after.len() implies #[trigger] after[a] == entries[if a < i {
        a
    } else {
        a + 1
    }] by {}
    assert forall|a: int, b: int|
        0 <= a < after.len() && 0 <= b < after.len() && a != b implies (#[trigger] after[a]).0 != (
    #[trigger] after[b]).0 by {
        let a2 = if a < i { a } else { a + 1 };
        let b2 = if b < i { b } else { b + 1 };
        assert(after[a] == entries[a2]);
        assert(after[b] == entries[b2]);
    }
    assert forall|k: K| #[trigger]
        as_map(after).contains_key(k) <==> as_map(entries).remove(key).contains_key(k) by {
        if has_key(after, k) {
            let a = index_of_key(after, k);
            let a2 = if a < i { a } else { a + 1 };
            assert(after[a] == entries[a2]);
            assert(has_key(entries, k));
            assert(entries[a2].0 != entries[i].0);
        }
        if has_key(entries, k) && k != key {
            let a2 = index_of_key(entries, k);
            let a = if a2 < i { a2 } else { a2 - 1 };
            assert(after[a] == entries[a2]);
            assert(has_key(after, k));
        }
    }
    assert forall|k: K| #[trigger] as_map(after).contains_key(k) implies as_map(after)[k]
        == as_map(entries).remove(key)[k] by {
        let a = lemma_as_map_witness(after, k);
        let a2 = if a < i { a } else { a + 1 };
        assert(after[a] == entries[a2]);
        lemma_as_map_entry(entries, a2);
    }
    assert(as_map(after) =~= as_map(entries).remove(key));
}

} // verus!
