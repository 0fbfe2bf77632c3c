//! Facts about sequences of reads, loads and deletions on a cache's store.
//!
//! They are stated over the store's map view, the one that the contracts of
//! `Cache` speak of, so that they apply to every run of those operations.
use vstd::prelude::*;

use crate::cache::{after_load, live_entry};
use crate::expiring::Expiring;

verus! {

/// The store after loads that completed in the order of `loads`, each one
/// storing its entry under its identifier.
pub open spec fn after_loads<V>(m: Map<Seq<char>, Expiring<V>>, loads: Seq<(Seq<char>, Expiring<V>)>) -> Map<
    Seq<char>,
    Expiring<V>,
>
    decreases loads.len(),
{
    if loads.len() == 0 {
        m
    } else {
        after_loads(m, loads.drop_last()).insert(loads.last().0, loads.last().1)
    }
}

/// While a stored entry is live, every read of its identifier is a hit on
/// that same entry: repeated reads agree, and none of them calls for a load.
pub proof fn lemma_hit_until_expiry<V>(
    m: Map<Seq<char>, Expiring<V>>,
    identifier: Seq<char>,
    item: Expiring<V>,
    t1: int,
    t2: int,
)
    requires
        t1 <= item.expires_at,
        t2 <= item.expires_at,
    ensures
        live_entry(m.insert(identifier, item), identifier, t1) == Some(item),
        live_entry(m.insert(identifier, item), identifier, t1) == live_entry(
            m.insert(identifier, item),
            identifier,
            t2,
        ),
{
}

/// Past an entry's expiration instant a read of its identifier misses, so
/// the loader runs again; the fresh entry then replaces the stale one,
/// leaves the number of entries as it was, and is what later reads serve.
pub proof fn lemma_expiry_triggers_reload<V>(
    m: Map<Seq<char>, Expiring<V>>,
    identifier: Seq<char>,
    stale: Expiring<V>,
    fresh: Expiring<V>,
    now: int,
    later: int,
)
    requires
        m.dom().finite(),
        now > stale.expires_at,
        later <= fresh.expires_at,
    ensures
        live_entry(m.insert(identifier, stale), identifier, now) is None,
        m.insert(identifier, stale).insert(identifier, fresh) == m.insert(identifier, fresh),
        m.insert(identifier, fresh).len() == m.insert(identifier, stale).len(),
        live_entry(m.insert(identifier, stale).insert(identifier, fresh), identifier, later)
            == Some(fresh),
{
    assert(m.insert(identifier, stale).insert(identifier, fresh) =~= m.insert(identifier, fresh));
    assert(m.insert(identifier, fresh).dom() =~= m.insert(identifier, stale).dom());
}

/// A failed load is not remembered: it leaves every entry as it was, and a
/// later successful load for the same identifier is stored just as if the
/// failure had not happened.
pub proof fn lemma_failure_is_not_cached<V, E>(
    m: Map<Seq<char>, Expiring<V>>,
    identifier: Seq<char>,
    error: E,
    item: Expiring<V>,
)
    ensures
        after_load(m, identifier, Err::<Expiring<V>, E>(error)) == m,
        after_load(after_load(m, identifier, Err::<Expiring<V>, E>(error)), identifier, Ok::<Expiring<V>, E>(item))
            == m.insert(identifier, item),
        forall|k: Seq<char>|
            k != identifier ==> after_load(
                after_load(m, identifier, Err::<Expiring<V>, E>(error)),
                identifier,
                Ok::<Expiring<V>, E>(item),
            ).contains_key(k) == m.contains_key(k),
        forall|k: Seq<char>|
            k != identifier && m.contains_key(k) ==> after_load(
                after_load(m, identifier, Err::<Expiring<V>, E>(error)),
                identifier,
                Ok::<Expiring<V>, E>(item),
            )[k] == m[k],
{
}

/// Deleting an identifier removes exactly its entry: other entries stay,
/// the count drops by at most one, and deleting an absent identifier changes
/// nothing.
pub proof fn lemma_delete_removes_one<V>(m: Map<Seq<char>, Expiring<V>>, identifier: Seq<char>)
    requires
        m.dom().finite(),
    ensures
        !m.remove(identifier).contains_key(identifier),
        forall|k: Seq<char>| k != identifier ==> m.remove(identifier).contains_key(k) == m.contains_key(k),
        forall|k: Seq<char>| k != identifier && m.contains_key(k) ==> m.remove(identifier)[k] == m[k],
        m.remove(identifier).len() <= m.len() <= m.remove(identifier).len() + 1,
        !m.contains_key(identifier) ==> m.remove(identifier) == m,
{
    if m.contains_key(identifier) {
        assert(m.remove(identifier).len() + 1 == m.len());
    } else {
        assert(m.remove(identifier) =~= m);
    }
}

/// Loads for pairwise distinct identifiers into an empty store, completed
/// in any order, leave one entry per load.
pub proof fn lemma_distinct_loads<V>(loads: Seq<(Seq<char>, Expiring<V>)>)
    requires
        forall|i: int, j: int| 0 <= i < j < loads.len() ==> loads[i].0 != loads[j].0,
    ensures
        after_loads(Map::<Seq<char>, Expiring<V>>::empty(), loads).dom().finite(),
        after_loads(Map::<Seq<char>, Expiring<V>>::empty(), loads).len() == loads.len(),
        forall|i: int|
            0 <= i < loads.len() ==> after_loads(Map::<Seq<char>, Expiring<V>>::empty(), loads)[loads[i].0]
                == loads[i].1 && after_loads(Map::<Seq<char>, Expiring<V>>::empty(), loads).contains_key(
                loads[i].0,
            ),
    decreases loads.len(),
{
    let empty = Map::<Seq<char>, Expiring<V>>::empty();
    if loads.len() > 0 {
        let prefix = loads.drop_last();
        lemma_distinct_loads(prefix);
        let before = after_loads(empty, prefix);
        let last = loads.last();
        assert forall|i: int| 0 <= i < prefix.len() implies prefix[i].0 != last.0 by {
            assert(prefix[i] == loads[i]);
        }
        if before.contains_key(last.0) {
            lemma_loaded_came_from_loads(empty, prefix, last.0);
        }
        assert forall|i: int| 0 <= i < loads.len() implies after_loads(empty, loads)[loads[i].0]
            == loads[i].1 && after_loads(empty, loads).contains_key(loads[i].0) by {
            if i < loads.len() - 1 {
                assert(prefix[i] == loads[i]);
            }
        }
    }
}

/// An identifier held after loads into a store was held before them or was
/// loaded by one of them.
proof fn lemma_loaded_came_from_loads<V>(
    m: Map<Seq<char>, Expiring<V>>,
    loads: Seq<(Seq<char>, Expiring<V>)>,
    identifier: Seq<char>,
)
    requires
        after_loads(m, loads).contains_key(identifier),
        !m.contains_key(identifier),
    ensures
        exists|i: int| 0 <= i < loads.len() && loads[i].0 == identifier,
    decreases loads.len(),
{
    if loads.len() > 0 {
        let prefix = loads.drop_last();
        if loads.last().0 == identifier {
            assert(loads[loads.len() - 1].0 == identifier);
        } else {
            lemma_loaded_came_from_loads(m, prefix, identifier);
            let i = choose|i: int| 0 <= i < prefix.len() && prefix[i].0 == identifier;
            assert(loads[i] == prefix[i]);
        }
    }
}

/// Any number of loads for one identifier into an empty store, completed in
/// any order, leave exactly one entry: the one written last.
pub proof fn lemma_same_identifier_loads<V>(loads: Seq<(Seq<char>, Expiring<V>)>, identifier: Seq<char>)
    requires
        loads.len() > 0,
        forall|i: int| 0 <= i < loads.len() ==> loads[i].0 == identifier,
    ensures
        after_loads(Map::<Seq<char>, Expiring<V>>::empty(), loads).dom() == set![identifier],
        after_loads(Map::<Seq<char>, Expiring<V>>::empty(), loads).len() == 1,
        after_loads(Map::<Seq<char>, Expiring<V>>::empty(), loads)[identifier] == loads.last().1,
    decreases loads.len(),
{
    let empty = Map::<Seq<char>, Expiring<V>>::empty();
    let prefix = loads.drop_last();
    assert(loads[loads.len() - 1].0 == identifier);
    if prefix.len() > 0 {
        assert forall|i: int| 0 <= i < prefix.len() implies prefix[i].0 == identifier by {
            assert(prefix[i] == loads[i]);
        }
        lemma_same_identifier_loads(prefix, identifier);
        assert(after_loads(empty, loads).dom() =~= set![identifier]);
    } else {
        assert(after_loads(empty, prefix) == empty);
        assert(after_loads(empty, loads).dom() =~= set![identifier]);
    }
    assert(set![identifier].len() == 1) by {
        assert(set![identifier] =~= Set::<Seq<char>>::empty().insert(identifier));
    }
}

} // verus!
