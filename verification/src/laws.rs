//! The layer-wide laws, stated over the abstract tier maps that every
//! operation's contract speaks of.

use vstd::prelude::*;

use crate::keys::AcademyDataKey;
use crate::keys::StoreKey;
use crate::storage::counter_of;
use crate::storage::legacy_count;
use crate::storage::migrate_count;
use crate::storage::migrate_result_instance;
use crate::storage::resolved_schedules;
use crate::storage::retained_ids;
use crate::storage::schedule_of;
use crate::storage::version_of;
use crate::storage::CURRENT_VERSION;
use crate::tier::Value;

verus! {

/// An identifier never written has no record: lookup yields absent, so
/// existence and lookup agree on it.
pub proof fn lemma_unwritten_schedule_absent<R>(m: Map<StoreKey, Value<R>>, id: u64)
    requires
        !m.dom().contains(StoreKey::Data(AcademyDataKey::Schedule(id))),
    ensures
        schedule_of(m, id) is None,
{
}

/// Writing a record makes it the one that lookup returns, and a second
/// write under the same identifier overwrites the first.
pub proof fn lemma_set_schedule_roundtrip<R>(
    m: Map<StoreKey, Value<R>>,
    id: u64,
    first: R,
    second: R,
)
    ensures
        schedule_of(
            m.insert(StoreKey::Data(AcademyDataKey::Schedule(id)), Value::<R>::Rec(first)),
            id,
        ) == Some(first),
        schedule_of(
            m.insert(StoreKey::Data(AcademyDataKey::Schedule(id)), Value::<R>::Rec(first)).insert(
                StoreKey::Data(AcademyDataKey::Schedule(id)),
                Value::<R>::Rec(second),
            ),
            id,
        ) == Some(second),
{
}

/// Two successive counter allocations return strictly increasing values
/// that differ by one: the state left by the first pins the second.
pub proof fn lemma_counter_strictly_increases<R>(m: Map<StoreKey, Value<R>>)
    requires
        counter_of(m) + 2 <= u64::MAX,
    ensures
        ({
            let first = (counter_of(m) + 1) as u64;
            let after_first = m.insert(
                StoreKey::Data(AcademyDataKey::Counter),
                Value::<R>::U64(first),
            );
            let second = (counter_of(after_first) + 1) as u64;
            second == first + 1 && counter_of(m) < first < second
        }),
{
}

/// Removing an identifier that the index does not hold leaves the index
/// unchanged.
pub proof fn lemma_retained_ids_absent(ids: Seq<u64>, id: u64)
    requires
        !ids.contains(id),
    ensures
        retained_ids(ids, id) == ids,
    decreases ids.len(),
{
    if ids.len() == 0 {
        assert(retained_ids(ids, id) =~= ids);
    } else {
        assert(ids[ids.len() - 1] == ids.last());
        assert(!ids.drop_last().contains(id)) by {
            if ids.drop_last().contains(id) {
                let i = choose|i: int|
                    0 <= i < ids.drop_last().len() && ids.drop_last()[i] == id;
                assert(ids[i] == id);
            }
        }
        lemma_retained_ids_absent(ids.drop_last(), id);
        assert(retained_ids(ids, id) =~= ids);
    }
}

/// Removal is complete: no occurrence of the removed identifier survives,
/// however many there were.
pub proof fn lemma_retained_ids_excludes(ids: Seq<u64>, id: u64)
    ensures
        !retained_ids(ids, id).contains(id),
    decreases ids.len(),
{
    if ids.len() == 0 {
    } else {
        lemma_retained_ids_excludes(ids.drop_last(), id);
        if ids.last() != id {
            let kept = retained_ids(ids.drop_last(), id);
            if kept.push(ids.last()).contains(id) {
                let i = choose|i: int|
                    0 <= i < kept.push(ids.last()).len() && kept.push(ids.last())[i] == id;
                assert(i < kept.len());
                assert(kept[i] == id);
            }
        }
    }
}

/// One migration settles the layout: afterwards the version is at least the
/// current one (exactly the current one when it was behind), and a second
/// migration changes nothing and reports zero values moved.
pub proof fn lemma_migration_settles<R>(i: Map<StoreKey, Value<R>>, p: Map<StoreKey, Value<R>>)
    ensures
        ({
            let once = migrate_result_instance(i, p);
            &&& version_of(i) < CURRENT_VERSION ==> version_of(once) == CURRENT_VERSION
            &&& version_of(i) >= CURRENT_VERSION ==> once == i
            &&& version_of(once) >= CURRENT_VERSION
            &&& migrate_result_instance(once, p) == once
            &&& migrate_count(once, p) == 0
        }),
{
}

/// Migration at version 1 moves exactly the legacy values that are present,
/// between none and all four of them.
pub proof fn lemma_migrate_count_bounds<R>(i: Map<StoreKey, Value<R>>, p: Map<StoreKey, Value<R>>)
    ensures
        0 <= migrate_count(i, p) <= 4,
        version_of(i) == 1 ==> migrate_count(i, p) == legacy_count(p),
        version_of(i) != 1 ==> migrate_count(i, p) == 0,
{
}

/// Resolving a user's records skips an identifier whose record is absent,
/// without failing and without disturbing the rest.
pub proof fn lemma_resolved_skips_missing<R>(
    m: Map<StoreKey, Value<R>>,
    ids: Seq<u64>,
    id: u64,
)
    requires
        schedule_of(m, id) is None,
    ensures
        resolved_schedules(m, ids.push(id)) == resolved_schedules(m, ids),
{
    assert(ids.push(id).drop_last() =~= ids);
    assert(ids.push(id).last() == id);
}

} // verus!
