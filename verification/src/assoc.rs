//! Lists of keys with their values, read as maps.
//!
//! A list of distinct keys and a list of values of the same length stand for
//! the map that sends each key to the value at its place.

use vstd::prelude::*;

verus! {

/// The map that sends each of `keys` to the value at its place in `values`.
pub open spec fn assoc<K, V>(keys: Seq<K>, values: Seq<V>) -> Map<K, V> {
    Map::new(|key: K| keys.contains(key), |key: K| values[keys.index_of(key)])
}

/// A key is sent to the value at its own place.
pub proof fn lemma_assoc_at<K, V>(keys: Seq<K>, values: Seq<V>, i: int)
    requires
        keys.no_duplicates(),
        0 <= i < keys.len(),
    ensures
        keys.contains(keys[i]),
        keys.index_of(keys[i]) == i,
        assoc(keys, values).contains_key(keys[i]),
        assoc(keys, values)[keys[i]] == values[i],
{
    let j = keys.index_of(keys[i]);
    assert(keys.contains(keys[i]));
    assert(0 <= j < keys.len() && keys[j] == keys[i]);
}

/// Replacing the value at the place of a key changes the map at that key
/// only.
pub proof fn lemma_assoc_update<K, V>(keys: Seq<K>, values: Seq<V>, i: int, value: V)
    requires
        keys.no_duplicates(),
        keys.len() == values.len(),
        0 <= i < keys.len(),
    ensures
        assoc(keys, values.update(i, value)) == assoc(keys, values).insert(keys[i], value),
{
    let after = assoc(keys, values.update(i, value));
    let expected = assoc(keys, values).insert(keys[i], value);
    lemma_assoc_at(keys, values, i);
    assert forall|key: K| after.contains_key(key) implies after[key] == expected[key] by {
        let j = keys.index_of(key);
        lemma_assoc_at(keys, values, j);
    }
    assert(after =~= expected);
}

/// A key that is new, added with its value at the end, adds itself to the
/// map and changes nothing else.
pub proof fn lemma_assoc_push<K, V>(keys: Seq<K>, values: Seq<V>, key: K, value: V)
    requires
        keys.no_duplicates(),
        keys.len() == values.len(),
        !keys.contains(key),
    ensures
        keys.push(key).no_duplicates(),
        assoc(keys.push(key), values.push(value)) == assoc(keys, values).insert(key, value),
{
    let more = keys.push(key);
    assert forall|a: int, b: int| 0 <= a < more.len() && 0 <= b < more.len() && a != b implies more[a]
        != more[b] by {
        if a < keys.len() {
            assert(keys.contains(more[a]));
        }
        if b < keys.len() {
            assert(keys.contains(more[b]));
        }
    }
    let after = assoc(more, values.push(value));
    let expected = assoc(keys, values).insert(key, value);
    assert forall|k: K| after.contains_key(k) <==> expected.contains_key(k) by {
        if more.contains(k) {
            let j = more.index_of(k);
            if j < keys.len() {
                assert(keys[j] == k);
            }
        }
        if keys.contains(k) {
            let j = keys.index_of(k);
            assert(more[j] == k);
        }
        if k == key {
            assert(more[keys.len() as int] == k);
        }
    }
    assert forall|k: K| after.contains_key(k) implies after[k] == expected[k] by {
        let j = more.index_of(k);
        lemma_assoc_at(more, values.push(value), j);
        if j < keys.len() {
            assert(keys[j] == k);
            lemma_assoc_at(keys, values, j);
        }
    }
    assert(after =~= expected);
}

/// Taking a key out with its value takes it out of the map and changes
/// nothing else.
pub proof fn lemma_assoc_remove<K, V>(keys: Seq<K>, values: Seq<V>, i: int)
    requires
        keys.no_duplicates(),
        keys.len() == values.len(),
        0 <= i < keys.len(),
    ensures
        keys.remove(i).no_duplicates(),
        !keys.remove(i).contains(keys[i]),
        assoc(keys.remove(i), values.remove(i)) == assoc(keys, values).remove(keys[i]),
{
    let fewer = keys.remove(i);
    let rest = values.remove(i);
    assert forall|a: int| 0 <= a < fewer.len() implies fewer[a] == keys[if a < i {
        a
    } else {
        a + 1
    }] by {}
    assert forall|a: int, b: int| 0 <= a < fewer.len() && 0 <= b < fewer.len() && a != b implies fewer[a]
        != fewer[b] by {}
    if fewer.contains(keys[i]) {
        let j = fewer.index_of(keys[i]);
        assert(fewer[j] == keys[if j < i {
            j
        } else {
            j + 1
        }]);
    }
    let after = assoc(fewer, rest);
    let expected = assoc(keys, values).remove(keys[i]);
    assert forall|k: K| after.contains_key(k) <==> expected.contains_key(k) by {
        if fewer.contains(k) {
            let j = fewer.index_of(k);
            assert(keys[if j < i {
                j
            } else {
                j + 1
            }] == k);
        }
        if keys.contains(k) && k != keys[i] {
            let j = keys.index_of(k);
            assert(fewer[if j < i {
                j
            } else {
                j - 1
            }] == k);
        }
    }
    assert forall|k: K| after.contains_key(k) implies after[k] == expected[k] by {
        let j = fewer.index_of(k);
        lemma_assoc_at(fewer, rest, j);
        lemma_assoc_at(keys, values, if j < i {
            j
        } else {
            j + 1
        });
    }
    assert(after =~= expected);
}

} // verus!
