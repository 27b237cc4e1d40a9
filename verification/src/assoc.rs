//! Finite maps kept as a sequence of distinct keys and a sequence of their
//! values, in the order in which the keys came.

use vstd::prelude::*;

verus! {

/// The map that gives each key the value that stands where the key stands.
pub open spec fn assoc<K, V>(keys: Seq<K>, values: Seq<V>) -> Map<K, V> {
    Map::new(|key: K| keys.contains(key), |key: K| values[keys.index_of(key)])
}

/// Among distinct keys, a key is found where it stands, and the map gives
/// it the value that stands there.
pub proof fn lemma_assoc_at<K, V>(keys: Seq<K>, values: Seq<V>, at: int)
    requires
        keys.no_duplicates(),
        0 <= at < keys.len(),
    ensures
        keys.contains(keys[at]),
        keys.index_of(keys[at]) == at,
        assoc(keys, values).contains_key(keys[at]),
        assoc(keys, values)[keys[at]] == values[at],
{
    let found = keys.index_of(keys[at]);
    assert(keys[found] == keys[at]);
}

/// The keys of the map are the keys of the sequence, finitely many.
pub proof fn lemma_assoc_domain<K, V>(keys: Seq<K>, values: Seq<V>)
    ensures
        assoc(keys, values).dom() == keys.to_set(),
        assoc(keys, values).dom().finite(),
        forall|key: K| assoc(keys, values).contains_key(key) <==> keys.contains(key),
{
    assert(assoc(keys, values).dom() =~= keys.to_set());
    vstd::seq_lib::seq_to_set_is_finite(keys);
}

/// A key that is none of the keys, put at the end with its value, is
/// inserted into the map.
pub proof fn lemma_assoc_push<K, V>(keys: Seq<K>, values: Seq<V>, key: K, value: V)
    requires
        keys.no_duplicates(),
        keys.len() == values.len(),
        !keys.contains(key),
    ensures
        keys.push(key).no_duplicates(),
        assoc(keys.push(key), values.push(value)) == assoc(keys, values).insert(key, value),
{
    let more_keys = keys.push(key);
    let more_values = values.push(value);
    assert forall|i: int, j: int|
        0 <= i < more_keys.len() && 0 <= j < more_keys.len() && i != j implies more_keys[i]
        != more_keys[j] by {
        if i < keys.len() {
            assert(keys[i] == more_keys[i]);
        }
        if j < keys.len() {
            assert(keys[j] == more_keys[j]);
        }
    }
    assert forall|k: K|
        assoc(more_keys, more_values).contains_key(k) <==> assoc(keys, values).insert(
            key,
            value,
        ).contains_key(k) by {
        if more_keys.contains(k) {
            let i = more_keys.index_of(k);
            if i < keys.len() {
                assert(keys[i] == k);
            }
        }
        if keys.contains(k) {
            let i = keys.index_of(k);
            assert(more_keys[i] == k);
        }
        if k == key {
            assert(more_keys[keys.len() as int] == k);
        }
    }
    assert forall|k: K| assoc(more_keys, more_values).contains_key(k) implies assoc(
        more_keys,
        more_values,
    )[k] == assoc(keys, values).insert(key, value)[k] by {
        let i = more_keys.index_of(k);
        assert(more_keys[i] == k);
        lemma_assoc_at(more_keys, more_values, i);
        if i < keys.len() {
            assert(keys[i] == k);
            lemma_assoc_at(keys, values, i);
        }
    }
    assert(assoc(more_keys, more_values) =~= assoc(keys, values).insert(key, value));
}

/// A new value in the place of the value of a key is inserted into the map
/// for that key.
pub proof fn lemma_assoc_update<K, V>(keys: Seq<K>, values: Seq<V>, at: int, value: V)
    requires
        keys.no_duplicates(),
        keys.len() == values.len(),
        0 <= at < keys.len(),
    ensures
        assoc(keys, values.update(at, value)) == assoc(keys, values).insert(keys[at], value),
{
    let changed = values.update(at, value);
    lemma_assoc_at(keys, values, at);
    assert forall|k: K| assoc(keys, changed).contains_key(k) implies assoc(keys, changed)[k]
        == assoc(keys, values).insert(keys[at], value)[k] by {
        let i = keys.index_of(k);
        assert(keys[i] == k);
        lemma_assoc_at(keys, changed, i);
        lemma_assoc_at(keys, values, i);
    }
    assert(assoc(keys, changed) =~= assoc(keys, values).insert(keys[at], value));
}

} // verus!
