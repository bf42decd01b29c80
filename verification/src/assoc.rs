//! The map abstraction behind the bridge's registries.
//!
//! Both registries store their entries as a vector of key/value pairs with
//! pairwise-distinct keys and present themselves as a [`Map`] in contracts.
//! [`assoc_map`] is that abstraction, and the lemmas here relate the vector
//! operations the registries perform (append, remove) to map operations.
use vstd::prelude::*;

verus! {

/// The map an association list denotes: a later entry for the same key wins,
/// though the registries never hold two entries for one key.
pub open spec fn assoc_map<K, V>(entries: Seq<(K, V)>) -> Map<K, V>
    decreases entries.len(),
{
    if entries.len() == 0 {
        Map::empty()
    } else {
        assoc_map(entries.drop_last()).insert(entries.last().0, entries.last().1)
    }
}

/// Whether an association list holds at most one entry per key.
pub open spec fn distinct_keys<K, V>(entries: Seq<(K, V)>) -> bool {
    forall|i: int, j: int|
        #![trigger entries[i], entries[j]]
        0 <= i < j < entries.len() ==> entries[i].0 != entries[j].0
}

/// A key is in the map exactly when some entry carries it.
pub proof fn lemma_assoc_map_contains<K, V>(entries: Seq<(K, V)>, key: K)
    ensures
        assoc_map(entries).contains_key(key) <==> exists|i: int|
            0 <= i < entries.len() && entries[i].0 == key,
    decreases entries.len(),
{
    if entries.len() > 0 {
        lemma_assoc_map_contains(entries.drop_last(), key);
        if entries.last().0 == key {
            assert(entries[entries.len() - 1].0 == key);
        } else if exists|i: int| 0 <= i < entries.len() && entries[i].0 == key {
            let i = choose|i: int| 0 <= i < entries.len() && entries[i].0 == key;
            assert(entries.drop_last()[i] == entries[i]);
        }
    }
}

/// With distinct keys, the entry at index `i` is what the map holds for its
/// key.
pub proof fn lemma_assoc_map_index<K, V>(entries: Seq<(K, V)>, i: int)
    requires
        distinct_keys(entries),
        0 <= i < entries.len(),
    ensures
        assoc_map(entries).contains_key(entries[i].0),
        assoc_map(entries)[entries[i].0] == entries[i].1,
    decreases entries.len(),
{
    if i == entries.len() - 1 {
    } else {
        assert(entries.drop_last()[i] == entries[i]);
        assert(distinct_keys(entries.drop_last())) by {
            assert(forall|a: int, b: int|
                0 <= a < b < entries.len() - 1 ==> entries.drop_last()[a] == entries[a]
                    && entries.drop_last()[b] == entries[b]);
        }
        lemma_assoc_map_index(entries.drop_last(), i);
        assert(entries[i].0 != entries.last().0);
    }
}

/// Appending an entry inserts its key.
pub proof fn lemma_assoc_map_push<K, V>(entries: Seq<(K, V)>, key: K, value: V)
    ensures
        assoc_map(entries.push((key, value))) == assoc_map(entries).insert(key, value),
{
    assert(entries.push((key, value)).drop_last() =~= entries);
}

/// Removing an entry removes its key, provided keys are distinct.
pub proof fn lemma_assoc_map_remove<K, V>(entries: Seq<(K, V)>, i: int)
    requires
        distinct_keys(entries),
        0 <= i < entries.len(),
    ensures
        assoc_map(entries.remove(i)) =~= assoc_map(entries).remove(entries[i].0),
    decreases entries.len(),
{
    let key = entries[i].0;
    if i == entries.len() - 1 {
        assert(entries.remove(i) =~= entries.drop_last());
        lemma_assoc_map_contains(entries.drop_last(), key);
        assert(forall|a: int|
            0 <= a < entries.len() - 1 ==> entries.drop_last()[a] == entries[a]);
        assert(!assoc_map(entries.drop_last()).contains_key(key));
    } else {
        assert(distinct_keys(entries.drop_last())) by {
            assert(forall|a: int, b: int|
                0 <= a < b < entries.len() - 1 ==> entries.drop_last()[a] == entries[a]
                    && entries.drop_last()[b] == entries[b]);
        }
        assert(entries.drop_last()[i] == entries[i]);
        lemma_assoc_map_remove(entries.drop_last(), i);
        assert(entries.remove(i).drop_last() =~= entries.drop_last().remove(i));
        assert(entries.remove(i).last() == entries.last());
        assert(key != entries.last().0);
    }
}

/// With distinct keys, the map holds exactly as many keys as the list holds
/// entries.
pub proof fn lemma_assoc_map_len<K, V>(entries: Seq<(K, V)>)
    requires
        distinct_keys(entries),
    ensures
        assoc_map(entries).dom().finite(),
        assoc_map(entries).dom().len() == entries.len(),
    decreases entries.len(),
{
    if entries.len() == 0 {
        assert(assoc_map(entries).dom() =~= Set::<K>::empty());
    } else {
        assert(distinct_keys(entries.drop_last())) by {
            assert(forall|a: int, b: int|
                0 <= a < b < entries.len() - 1 ==> entries.drop_last()[a] == entries[a]
                    && entries.drop_last()[b] == entries[b]);
        }
        lemma_assoc_map_len(entries.drop_last());
        lemma_assoc_map_contains(entries.drop_last(), entries.last().0);
        assert(forall|a: int|
            0 <= a < entries.len() - 1 ==> entries.drop_last()[a] == entries[a]);
        assert(!assoc_map(entries.drop_last()).contains_key(entries.last().0));
        assert(assoc_map(entries).dom() =~= assoc_map(entries.drop_last()).dom().insert(
            entries.last().0,
        ));
    }
}

/// Distinct keys stay distinct when an entry is removed.
pub proof fn lemma_distinct_keys_remove<K, V>(entries: Seq<(K, V)>, i: int)
    requires
        distinct_keys(entries),
        0 <= i < entries.len(),
    ensures
        distinct_keys(entries.remove(i)),
{
    let r = entries.remove(i);
    assert forall|a: int, b: int|
        #![trigger r[a], r[b]]
        0 <= a < b < r.len() implies r[a].0 != r[b].0 by {
        let a0: int = if a < i {
            a
        } else {
            a + 1
        };
        let b0: int = if b < i {
            b
        } else {
            b + 1
        };
        assert(r[a] == entries[a0]);
        assert(r[b] == entries[b0]);
    }
}

/// Distinct keys stay distinct when an entry with a fresh key is appended.
pub proof fn lemma_distinct_keys_push<K, V>(entries: Seq<(K, V)>, key: K, value: V)
    requires
        distinct_keys(entries),
        forall|i: int| #![trigger entries[i]] 0 <= i < entries.len() ==> entries[i].0 != key,
    ensures
        distinct_keys(entries.push((key, value))),
{
    let r = entries.push((key, value));
    assert forall|a: int, b: int|
        #![trigger r[a], r[b]]
        0 <= a < b < r.len() implies r[a].0 != r[b].0 by {
        if b < entries.len() {
            assert(r[a] == entries[a]);
            assert(r[b] == entries[b]);
        } else {
            assert(r[a] == entries[a]);
            assert(r[b] == (key, value));
        }
    }
}

/// Mapping a function over the values commutes with removing an entry.
pub proof fn lemma_map_values_remove<A, B>(s: Seq<A>, f: spec_fn(A) -> B, i: int)
    requires
        0 <= i < s.len(),
    ensures
        s.remove(i).map_values(f) =~= s.map_values(f).remove(i),
{
}

/// Mapping a function over the values commutes with appending an entry.
pub proof fn lemma_map_values_push<A, B>(s: Seq<A>, f: spec_fn(A) -> B, a: A)
    ensures
        s.push(a).map_values(f) =~= s.map_values(f).push(f(a)),
{
}

} // verus!
