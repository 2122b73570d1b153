//! The storage manager: scalar configuration, schedule records, the two
//! denormalized indexes, and the version-gated migration engine.
//!
//! Every operation is specified against the abstract maps of the two tiers
//! through the spec accessors below, so callers reason about configuration
//! fields, index sequences and schedule records rather than raw entries.

use vstd::prelude::*;

use crate::keys::AcademyDataKey;
use crate::keys::Identity;
use crate::keys::StoreKey;
use crate::tier::Tier;
use crate::tier::Value;

verus! {

/// The current schema version; `migrate_storage` advances older layouts to
/// it exactly once.
pub const CURRENT_VERSION: u32 = 2;

/// Whether the initialization flag has been written.
pub open spec fn initialized_of<R>(m: Map<StoreKey, Value<R>>) -> bool {
    m.dom().contains(StoreKey::Data(AcademyDataKey::Init))
}

/// The identity stored under `k`, if one is there.
pub open spec fn ident_at<R>(m: Map<StoreKey, Value<R>>, k: StoreKey) -> Option<Identity> {
    if m.dom().contains(k) {
        match m[k] {
            Value::Ident(a) => Some(a),
            _ => None,
        }
    } else {
        None
    }
}

/// The configured admin identity, if set.
pub open spec fn admin_of<R>(m: Map<StoreKey, Value<R>>) -> Option<Identity> {
    ident_at(m, StoreKey::Data(AcademyDataKey::Admin))
}

/// The configured token reference, if set.
pub open spec fn token_of<R>(m: Map<StoreKey, Value<R>>) -> Option<Identity> {
    ident_at(m, StoreKey::Data(AcademyDataKey::Token))
}

/// The configured governance reference, if set.
pub open spec fn governance_of<R>(m: Map<StoreKey, Value<R>>) -> Option<Identity> {
    ident_at(m, StoreKey::Data(AcademyDataKey::Governance))
}

/// The schema version; an absent version reads as 0.
pub open spec fn version_of<R>(m: Map<StoreKey, Value<R>>) -> u32 {
    if m.dom().contains(StoreKey::Version) {
        match m[StoreKey::Version] {
            Value::U32(v) => v,
            _ => 0u32,
        }
    } else {
        0u32
    }
}

/// The schedule-identifier counter; an absent counter reads as 0.
pub open spec fn counter_of<R>(m: Map<StoreKey, Value<R>>) -> u64 {
    if m.dom().contains(StoreKey::Data(AcademyDataKey::Counter)) {
        match m[StoreKey::Data(AcademyDataKey::Counter)] {
            Value::U64(c) => c,
            _ => 0u64,
        }
    } else {
        0u64
    }
}

/// The schedule record stored under `id`, if one was ever written.
pub open spec fn schedule_of<R>(m: Map<StoreKey, Value<R>>, id: u64) -> Option<R> {
    if m.dom().contains(StoreKey::Data(AcademyDataKey::Schedule(id))) {
        match m[StoreKey::Data(AcademyDataKey::Schedule(id))] {
            Value::Rec(r) => Some(r),
            _ => None,
        }
    } else {
        None
    }
}

/// The identifier sequence stored under `k`; an absent entry reads as the
/// empty sequence.
pub open spec fn ids_at<R>(m: Map<StoreKey, Value<R>>, k: StoreKey) -> Seq<u64> {
    if m.dom().contains(k) {
        match m[k] {
            Value::Ids(v) => v@,
            _ => Seq::empty(),
        }
    } else {
        Seq::empty()
    }
}

/// The ordered schedule identifiers of one user.
pub open spec fn user_ids_of<R>(m: Map<StoreKey, Value<R>>, user: Identity) -> Seq<u64> {
    ids_at(m, StoreKey::Data(AcademyDataKey::UserScheduleIds(user)))
}

/// The active-schedule index.
pub open spec fn active_ids_of<R>(m: Map<StoreKey, Value<R>>) -> Seq<u64> {
    ids_at(m, StoreKey::Data(AcademyDataKey::ActiveSchedules))
}

/// The records that `ids` resolves to, in order, silently skipping every
/// identifier with no stored record.
pub open spec fn resolved_schedules<R>(m: Map<StoreKey, Value<R>>, ids: Seq<u64>) -> Seq<R>
    decreases ids.len(),
{
    if ids.len() == 0 {
        Seq::empty()
    } else {
        let rest = resolved_schedules(m, ids.drop_last());
        match schedule_of(m, ids.last()) {
            Some(r) => rest.push(r),
            None => rest,
        }
    }
}

/// `ids` with every occurrence of `id` removed, order otherwise kept.
pub open spec fn retained_ids(ids: Seq<u64>, id: u64) -> Seq<u64>
    decreases ids.len(),
{
    if ids.len() == 0 {
        Seq::empty()
    } else if ids.last() == id {
        retained_ids(ids.drop_last(), id)
    } else {
        retained_ids(ids.drop_last(), id).push(ids.last())
    }
}

/// How many of the four legacy keys are present.
pub open spec fn legacy_count<R>(p: Map<StoreKey, Value<R>>) -> int {
    (if p.dom().contains(StoreKey::LegacyAdmin) {
        1int
    } else {
        0int
    }) + (if p.dom().contains(StoreKey::LegacyToken) {
        1int
    } else {
        0int
    }) + (if p.dom().contains(StoreKey::LegacyGov) {
        1int
    } else {
        0int
    }) + (if p.dom().contains(StoreKey::LegacyCnt) {
        1int
    } else {
        0int
    })
}

/// The instance tier after every present legacy value has been copied into
/// its structured location, in the fixed order admin, token, governance,
/// counter. The legacy keys themselves are never deleted.
pub open spec fn migrated_instance<R>(
    i: Map<StoreKey, Value<R>>,
    p: Map<StoreKey, Value<R>>,
) -> Map<StoreKey, Value<R>> {
    let i1 = if p.dom().contains(StoreKey::LegacyAdmin) {
        i.insert(StoreKey::Data(AcademyDataKey::Admin), p[StoreKey::LegacyAdmin])
    } else {
        i
    };
    let i2 = if p.dom().contains(StoreKey::LegacyToken) {
        i1.insert(StoreKey::Data(AcademyDataKey::Token), p[StoreKey::LegacyToken])
    } else {
        i1
    };
    let i3 = if p.dom().contains(StoreKey::LegacyGov) {
        i2.insert(StoreKey::Data(AcademyDataKey::Governance), p[StoreKey::LegacyGov])
    } else {
        i2
    };
    if p.dom().contains(StoreKey::LegacyCnt) {
        i3.insert(StoreKey::Data(AcademyDataKey::Counter), p[StoreKey::LegacyCnt])
    } else {
        i3
    }
}

/// The instance tier after one `migrate_storage` call: version 0 is treated
/// as a fresh layout, version 1 pulls the legacy values over, and anything
/// at or past the current version is left untouched.
pub open spec fn migrate_result_instance<R>(
    i: Map<StoreKey, Value<R>>,
    p: Map<StoreKey, Value<R>>,
) -> Map<StoreKey, Value<R>> {
    if version_of(i) == 0 {
        i.insert(StoreKey::Version, Value::U32(CURRENT_VERSION))
    } else if version_of(i) == 1 {
        migrated_instance(i, p).insert(StoreKey::Version, Value::U32(CURRENT_VERSION))
    } else {
        i
    }
}

/// The count that one `migrate_storage` call reports.
pub open spec fn migrate_count<R>(i: Map<StoreKey, Value<R>>, p: Map<StoreKey, Value<R>>) -> int {
    if version_of(i) == 1 {
        legacy_count(p)
    } else {
        0
    }
}

/// Rebuilds an identifier sequence without any occurrence of `id`, order
/// otherwise kept: the rebuild step of index removal.
pub fn retained(ids: &Vec<u64>, id: u64) -> (r: Vec<u64>)
    ensures
        r@ == retained_ids(ids@, id),
{
    let mut kept: Vec<u64> = Vec::new();
    let mut i: usize = 0;
    while i < ids.len()
        invariant
            i <= ids@.len(),
            kept@ == retained_ids(ids@.take(i as int), id),
        decreases ids@.len() - i,
    {
        proof {
            assert(ids@.take(i as int + 1).drop_last() =~= ids@.take(i as int));
            assert(ids@.take(i as int + 1).last() == ids@[i as int]);
        }
        if ids[i] != id {
            kept.push(ids[i]);
        }
        i += 1;
    }
    proof {
        assert(ids@.take(ids@.len() as int) =~= ids@);
    }
    kept
}

/// Whether a value may sit under `k` in the instance tier: only the scalar
/// configuration keys live there, each with its one value shape.
pub open spec fn instance_value_ok<R>(k: StoreKey, v: Value<R>) -> bool {
    match k {
        StoreKey::Data(AcademyDataKey::Init) => v is Bool,
        StoreKey::Data(AcademyDataKey::Admin) => v is Ident,
        StoreKey::Data(AcademyDataKey::Token) => v is Ident,
        StoreKey::Data(AcademyDataKey::Governance) => v is Ident,
        StoreKey::Data(AcademyDataKey::Counter) => v is U64,
        StoreKey::Version => v is U32,
        _ => false,
    }
}

/// Whether a value may sit under `k` in the persistent tier: per-entity
/// records, index entries, and the read-only legacy keys.
pub open spec fn persistent_value_ok<R>(k: StoreKey, v: Value<R>) -> bool {
    match k {
        StoreKey::Data(AcademyDataKey::Schedule(_)) => v is Rec,
        StoreKey::Data(AcademyDataKey::UserScheduleIds(_)) => v is Ids,
        StoreKey::Data(AcademyDataKey::ActiveSchedules) => v is Ids,
        StoreKey::LegacyAdmin => v is Ident,
        StoreKey::LegacyToken => v is Ident,
        StoreKey::LegacyGov => v is Ident,
        StoreKey::LegacyCnt => v is U64,
        _ => false,
    }
}

/// Every instance-tier entry is well-placed and well-shaped.
pub open spec fn instance_typed<R>(m: Map<StoreKey, Value<R>>) -> bool {
    forall|k: StoreKey| #[trigger] m.dom().contains(k) ==> instance_value_ok(k, m[k])
}

/// Every persistent-tier entry is well-placed and well-shaped.
pub open spec fn persistent_typed<R>(m: Map<StoreKey, Value<R>>) -> bool {
    forall|k: StoreKey| #[trigger] m.dom().contains(k) ==> persistent_value_ok(k, m[k])
}

proof fn lemma_instance_typed_insert<R>(m: Map<StoreKey, Value<R>>, k: StoreKey, v: Value<R>)
    requires
        instance_typed(m),
        instance_value_ok(k, v),
    ensures
        instance_typed(m.insert(k, v)),
{
    assert forall|k2: StoreKey| #[trigger] m.insert(k, v).dom().contains(k2)
        implies instance_value_ok(k2, m.insert(k, v)[k2]) by {
        if k2 != k {
            assert(m.dom().contains(k2));
        }
    }
}

proof fn lemma_persistent_typed_insert<R>(m: Map<StoreKey, Value<R>>, k: StoreKey, v: Value<R>)
    requires
        persistent_typed(m),
        persistent_value_ok(k, v),
    ensures
        persistent_typed(m.insert(k, v)),
{
    assert forall|k2: StoreKey| #[trigger] m.insert(k, v).dom().contains(k2)
        implies persistent_value_ok(k2, m.insert(k, v)[k2]) by {
        if k2 != k {
            assert(m.dom().contains(k2));
        }
    }
}

/// The storage manager: the two tiers of the flat keyed store.
pub struct AcademyStorage<R> {
    instance: Tier<R>,
    persistent: Tier<R>,
}

impl<R> AcademyStorage<R> {
    /// The abstract contents of the cheap instance tier.
    pub closed spec fn inst(&self) -> Map<StoreKey, Value<R>> {
        self.instance@
    }

    /// The abstract contents of the larger persistent tier.
    pub closed spec fn pers(&self) -> Map<StoreKey, Value<R>> {
        self.persistent@
    }

    /// Well-formedness: both tiers keep their keys distinct, and every
    /// entry sits in its designated tier with its designated value shape.
    pub closed spec fn wf(&self) -> bool {
        &&& self.instance.wf()
        &&& self.persistent.wf()
        &&& instance_typed(self.inst())
        &&& persistent_typed(self.pers())
    }

    /// A well-formed store keeps every entry in its designated tier with
    /// its designated value shape: the placement invariant of the two-tier
    /// cost model, preserved by every operation.
    pub proof fn lemma_wf_placement(&self)
        requires
            self.wf(),
        ensures
            instance_typed(self.inst()),
            persistent_typed(self.pers()),
    {
    }

    /// A fresh store with nothing written.
    pub fn new() -> (s: Self)
        ensures
            s.wf(),
            s.inst() == Map::<StoreKey, Value<R>>::empty(),
            s.pers() == Map::<StoreKey, Value<R>>::empty(),
    {
        AcademyStorage { instance: Tier::new(), persistent: Tier::new() }
    }

    /// Whether the initialization flag has been written.
    pub fn is_initialized(&self) -> (r: bool)
        requires
            self.wf(),
        ensures
            r == initialized_of(self.inst()),
    {
        self.instance.has(StoreKey::Data(AcademyDataKey::Init))
    }

    /// Writes the initialization flag and resets the counter to 0. Calling
    /// this a second time silently resets the counter again; guarding
    /// against that is the caller's responsibility.
    pub fn set_initialized(&mut self)
        requires
            old(self).wf(),
        ensures
            final(self).wf(),
            final(self).inst() == old(self).inst().insert(
                StoreKey::Data(AcademyDataKey::Init),
                Value::<R>::Bool(true),
            ).insert(StoreKey::Data(AcademyDataKey::Counter), Value::<R>::U64(0)),
            final(self).pers() == old(self).pers(),
    {
        proof {
            lemma_instance_typed_insert(
                self.inst(),
                StoreKey::Data(AcademyDataKey::Init),
                Value::<R>::Bool(true),
            );
            lemma_instance_typed_insert(
                self.inst().insert(StoreKey::Data(AcademyDataKey::Init), Value::<R>::Bool(true)),
                StoreKey::Data(AcademyDataKey::Counter),
                Value::<R>::U64(0),
            );
        }
        self.instance.set(StoreKey::Data(AcademyDataKey::Init), Value::Bool(true));
        self.instance.set(StoreKey::Data(AcademyDataKey::Counter), Value::U64(0));
    }

    /// The schema version; 0 until one is written.
    pub fn get_version(&self) -> (r: u32)
        requires
            self.wf(),
        ensures
            r == version_of(self.inst()),
    {
        match self.instance.get(StoreKey::Version) {
            Some(v) => match v {
                Value::U32(x) => *x,
                _ => 0,
            },
            None => 0,
        }
    }

    /// Writes the schema version.
    pub fn set_version(&mut self, version: u32)
        requires
            old(self).wf(),
        ensures
            final(self).wf(),
            final(self).inst() == old(self).inst().insert(
                StoreKey::Version,
                Value::<R>::U32(version),
            ),
            final(self).pers() == old(self).pers(),
            version_of(final(self).inst()) == version,
    {
        proof {
            lemma_instance_typed_insert(self.inst(), StoreKey::Version, Value::<R>::U32(version));
        }
        self.instance.set(StoreKey::Version, Value::U32(version));
    }

    /// Writes the admin identity.
    pub fn set_admin(&mut self, admin: Identity)
        requires
            old(self).wf(),
        ensures
            final(self).wf(),
            final(self).inst() == old(self).inst().insert(
                StoreKey::Data(AcademyDataKey::Admin),
                Value::<R>::Ident(admin),
            ),
            final(self).pers() == old(self).pers(),
            admin_of(final(self).inst()) == Some(admin),
    {
        proof {
            lemma_instance_typed_insert(
                self.inst(),
                StoreKey::Data(AcademyDataKey::Admin),
                Value::<R>::Ident(admin),
            );
        }
        self.instance.set(StoreKey::Data(AcademyDataKey::Admin), Value::Ident(admin));
    }

    /// The admin identity, or absent when never configured.
    pub fn get_admin(&self) -> (r: Option<Identity>)
        requires
            self.wf(),
        ensures
            r == admin_of(self.inst()),
    {
        match self.instance.get(StoreKey::Data(AcademyDataKey::Admin)) {
            Some(v) => match v {
                Value::Ident(a) => Some(*a),
                _ => None,
            },
            None => None,
        }
    }

    /// Writes the token reference.
    pub fn set_token(&mut self, token: Identity)
        requires
            old(self).wf(),
        ensures
            final(self).wf(),
            final(self).inst() == old(self).inst().insert(
                StoreKey::Data(AcademyDataKey::Token),
                Value::<R>::Ident(token),
            ),
            final(self).pers() == old(self).pers(),
            token_of(final(self).inst()) == Some(token),
    {
        proof {
            lemma_instance_typed_insert(
                self.inst(),
                StoreKey::Data(AcademyDataKey::Token),
                Value::<R>::Ident(token),
            );
        }
        self.instance.set(StoreKey::Data(AcademyDataKey::Token), Value::Ident(token));
    }

    /// The token reference, or absent when never configured.
    pub fn get_token(&self) -> (r: Option<Identity>)
        requires
            self.wf(),
        ensures
            r == token_of(self.inst()),
    {
        match self.instance.get(StoreKey::Data(AcademyDataKey::Token)) {
            Some(v) => match v {
                Value::Ident(a) => Some(*a),
                _ => None,
            },
            None => None,
        }
    }

    /// Writes the governance reference.
    pub fn set_governance(&mut self, governance: Identity)
        requires
            old(self).wf(),
        ensures
            final(self).wf(),
            final(self).inst() == old(self).inst().insert(
                StoreKey::Data(AcademyDataKey::Governance),
                Value::<R>::Ident(governance),
            ),
            final(self).pers() == old(self).pers(),
            governance_of(final(self).inst()) == Some(governance),
    {
        proof {
            lemma_instance_typed_insert(
                self.inst(),
                StoreKey::Data(AcademyDataKey::Governance),
                Value::<R>::Ident(governance),
            );
        }
        self.instance.set(StoreKey::Data(AcademyDataKey::Governance), Value::Ident(governance));
    }

    /// The governance reference, or absent when never configured.
    pub fn get_governance(&self) -> (r: Option<Identity>)
        requires
            self.wf(),
        ensures
            r == governance_of(self.inst()),
    {
        match self.instance.get(StoreKey::Data(AcademyDataKey::Governance)) {
            Some(v) => match v {
                Value::Ident(a) => Some(*a),
                _ => None,
            },
            None => None,
        }
    }

    /// The counter: the last allocated schedule identifier, 0 before any
    /// allocation.
    pub fn get_counter(&self) -> (r: u64)
        requires
            self.wf(),
        ensures
            r == counter_of(self.inst()),
    {
        match self.instance.get(StoreKey::Data(AcademyDataKey::Counter)) {
            Some(v) => match v {
                Value::U64(c) => *c,
                _ => 0,
            },
            None => 0,
        }
    }

    /// Allocates the next schedule identifier: persists `counter + 1` and
    /// returns the new value, which the caller must treat as the freshly
    /// allocated identifier.
    pub fn increment_counter(&mut self) -> (r: u64)
        requires
            old(self).wf(),
            counter_of(old(self).inst()) < u64::MAX,
        ensures
            final(self).wf(),
            r == counter_of(old(self).inst()) + 1,
            counter_of(final(self).inst()) == r,
            final(self).inst() == old(self).inst().insert(
                StoreKey::Data(AcademyDataKey::Counter),
                Value::<R>::U64(r),
            ),
            final(self).pers() == old(self).pers(),
    {
        let current = self.get_counter();
        let next = current + 1;
        proof {
            lemma_instance_typed_insert(
                self.inst(),
                StoreKey::Data(AcademyDataKey::Counter),
                Value::<R>::U64(next),
            );
        }
        self.instance.set(StoreKey::Data(AcademyDataKey::Counter), Value::U64(next));
        next
    }

    /// Unconditional upsert of the schedule record stored under `id`. The
    /// layer does not check that `id` came from the counter; that is the
    /// caller's contract.
    pub fn set_schedule(&mut self, schedule_id: u64, schedule: R)
        requires
            old(self).wf(),
        ensures
            final(self).wf(),
            final(self).pers() == old(self).pers().insert(
                StoreKey::Data(AcademyDataKey::Schedule(schedule_id)),
                Value::<R>::Rec(schedule),
            ),
            final(self).inst() == old(self).inst(),
            schedule_of(final(self).pers(), schedule_id) == Some(schedule),
    {
        let ghost gs = schedule;
        proof {
            lemma_persistent_typed_insert(
                self.pers(),
                StoreKey::Data(AcademyDataKey::Schedule(schedule_id)),
                Value::<R>::Rec(gs),
            );
        }
        self.persistent.set(
            StoreKey::Data(AcademyDataKey::Schedule(schedule_id)),
            Value::Rec(schedule),
        );
    }

    /// Whether a record was ever written under `id`.
    pub fn has_schedule(&self, schedule_id: u64) -> (r: bool)
        requires
            self.wf(),
        ensures
            r == self.pers().dom().contains(StoreKey::Data(AcademyDataKey::Schedule(schedule_id))),
            r == schedule_of(self.pers(), schedule_id).is_some(),
    {
        self.persistent.has(StoreKey::Data(AcademyDataKey::Schedule(schedule_id)))
    }

    /// The identifier sequence stored under `k` in the persistent tier,
    /// copied out; an absent entry reads as the empty sequence.
    fn read_ids(&self, k: StoreKey) -> (r: Vec<u64>)
        requires
            self.wf(),
        ensures
            r@ == ids_at(self.pers(), k),
    {
        let mut out: Vec<u64> = Vec::new();
        match self.persistent.get(k) {
            Some(v) => match v {
                Value::Ids(ids) => {
                    let mut i: usize = 0;
                    while i < ids.len()
                        invariant
                            i <= ids@.len(),
                            out@ == ids@.take(i as int),
                        decreases ids@.len() - i,
                    {
                        out.push(ids[i]);
                        i += 1;
                    }
                    proof {
                        assert(ids@.take(ids@.len() as int) =~= ids@);
                    }
                    out
                },
                _ => out,
            },
            None => out,
        }
    }

    /// Appends `id` to the user's index entry, creating the entry when
    /// absent. Order is insertion order; the layer does not deduplicate.
    pub fn add_schedule_to_user_index(&mut self, user: Identity, schedule_id: u64)
        requires
            old(self).wf(),
        ensures
            final(self).wf(),
            user_ids_of(final(self).pers(), user) == user_ids_of(old(self).pers(), user).push(
                schedule_id,
            ),
            final(self).pers().dom().contains(
                StoreKey::Data(AcademyDataKey::UserScheduleIds(user)),
            ),
            forall|k: StoreKey|
                k != StoreKey::Data(AcademyDataKey::UserScheduleIds(user))
                    ==> #[trigger] final(self).pers().dom().contains(k) == old(
                    self,
                ).pers().dom().contains(k),
            forall|k: StoreKey|
                k != StoreKey::Data(AcademyDataKey::UserScheduleIds(user)) && old(
                    self,
                ).pers().dom().contains(k) ==> #[trigger] final(self).pers()[k] == old(
                    self,
                ).pers()[k],
            final(self).inst() == old(self).inst(),
    {
        let key = StoreKey::Data(AcademyDataKey::UserScheduleIds(user));
        let mut ids = self.read_ids(key);
        ids.push(schedule_id);
        let ghost gids = ids@;
        proof {
            lemma_persistent_typed_insert(self.pers(), key, Value::<R>::Ids(ids));
        }
        self.persistent.set(key, Value::Ids(ids));
        proof {
            assert(user_ids_of(self.pers(), user) == gids);
        }
    }

    /// The ordered schedule identifiers of one user; empty when none were
    /// ever added.
    pub fn get_user_schedule_ids(&self, user: Identity) -> (r: Vec<u64>)
        requires
            self.wf(),
        ensures
            r@ == user_ids_of(self.pers(), user),
    {
        self.read_ids(StoreKey::Data(AcademyDataKey::UserScheduleIds(user)))
    }

    /// Appends `id` to the active-schedule index. No duplicate check is
    /// made: adding the same identifier twice stores it twice.
    pub fn add_to_active_index(&mut self, schedule_id: u64)
        requires
            old(self).wf(),
        ensures
            final(self).wf(),
            active_ids_of(final(self).pers()) == active_ids_of(old(self).pers()).push(schedule_id),
            final(self).pers().dom().contains(StoreKey::Data(AcademyDataKey::ActiveSchedules)),
            forall|k: StoreKey|
                k != StoreKey::Data(AcademyDataKey::ActiveSchedules)
                    ==> #[trigger] final(self).pers().dom().contains(k) == old(
                    self,
                ).pers().dom().contains(k),
            forall|k: StoreKey|
                k != StoreKey::Data(AcademyDataKey::ActiveSchedules) && old(
                    self,
                ).pers().dom().contains(k) ==> #[trigger] final(self).pers()[k] == old(
                    self,
                ).pers()[k],
            final(self).inst() == old(self).inst(),
    {
        let key = StoreKey::Data(AcademyDataKey::ActiveSchedules);
        let mut ids = self.read_ids(key);
        ids.push(schedule_id);
        let ghost gids = ids@;
        proof {
            lemma_persistent_typed_insert(self.pers(), key, Value::<R>::Ids(ids));
        }
        self.persistent.set(key, Value::Ids(ids));
        proof {
            assert(active_ids_of(self.pers()) == gids);
        }
    }

    /// Rebuilds the active-schedule index without any occurrence of `id`.
    /// Removing an identifier that is not present rewrites the index
    /// unchanged.
    pub fn remove_from_active_index(&mut self, schedule_id: u64)
        requires
            old(self).wf(),
        ensures
            final(self).wf(),
            active_ids_of(final(self).pers()) == retained_ids(
                active_ids_of(old(self).pers()),
                schedule_id,
            ),
            final(self).pers().dom().contains(StoreKey::Data(AcademyDataKey::ActiveSchedules)),
            forall|k: StoreKey|
                k != StoreKey::Data(AcademyDataKey::ActiveSchedules)
                    ==> #[trigger] final(self).pers().dom().contains(k) == old(
                    self,
                ).pers().dom().contains(k),
            forall|k: StoreKey|
                k != StoreKey::Data(AcademyDataKey::ActiveSchedules) && old(
                    self,
                ).pers().dom().contains(k) ==> #[trigger] final(self).pers()[k] == old(
                    self,
                ).pers()[k],
            final(self).inst() == old(self).inst(),
    {
        let key = StoreKey::Data(AcademyDataKey::ActiveSchedules);
        let active = self.read_ids(key);
        let kept = retained(&active, schedule_id);
        let ghost gkept = kept@;
        proof {
            lemma_persistent_typed_insert(self.pers(), key, Value::<R>::Ids(kept));
        }
        self.persistent.set(key, Value::Ids(kept));
        proof {
            assert(active_ids_of(self.pers()) == gkept);
        }
    }

    /// The active-schedule index; empty when nothing was ever added.
    pub fn get_active_schedule_ids(&self) -> (r: Vec<u64>)
        requires
            self.wf(),
        ensures
            r@ == active_ids_of(self.pers()),
    {
        self.read_ids(StoreKey::Data(AcademyDataKey::ActiveSchedules))
    }

    /// Whether the layout is older than the current schema version.
    pub fn needs_migration(&self) -> (r: bool)
        requires
            self.wf(),
        ensures
            r == (version_of(self.inst()) < CURRENT_VERSION),
    {
        self.get_version() < CURRENT_VERSION
    }

    /// The identity stored under one of the three legacy identity keys, if
    /// that key is present.
    fn read_legacy_ident(&self, k: StoreKey) -> (r: Option<Identity>)
        requires
            self.wf(),
            k == StoreKey::LegacyAdmin || k == StoreKey::LegacyToken || k == StoreKey::LegacyGov,
        ensures
            r.is_some() == self.pers().dom().contains(k),
            r matches Some(a) ==> self.pers()[k] == Value::<R>::Ident(a),
    {
        match self.persistent.get(k) {
            Some(v) => match v {
                Value::Ident(a) => Some(*a),
                _ => None,
            },
            None => None,
        }
    }

    /// The legacy counter value, if its key is present.
    fn read_legacy_counter(&self) -> (r: Option<u64>)
        requires
            self.wf(),
        ensures
            r.is_some() == self.pers().dom().contains(StoreKey::LegacyCnt),
            r matches Some(c) ==> self.pers()[StoreKey::LegacyCnt] == Value::<R>::U64(c),
    {
        match self.persistent.get(StoreKey::LegacyCnt) {
            Some(v) => match v {
                Value::U64(c) => Some(*c),
                _ => None,
            },
            None => None,
        }
    }

    /// Writes the counter value directly, as the legacy migration does.
    fn write_counter(&mut self, counter: u64)
        requires
            old(self).wf(),
        ensures
            final(self).wf(),
            final(self).inst() == old(self).inst().insert(
                StoreKey::Data(AcademyDataKey::Counter),
                Value::<R>::U64(counter),
            ),
            final(self).pers() == old(self).pers(),
    {
        proof {
            lemma_instance_typed_insert(
                self.inst(),
                StoreKey::Data(AcademyDataKey::Counter),
                Value::<R>::U64(counter),
            );
        }
        self.instance.set(StoreKey::Data(AcademyDataKey::Counter), Value::U64(counter));
    }

    /// Copies every present legacy value into its structured location, in
    /// the fixed order admin, token, governance, counter, and reports how
    /// many were copied. The legacy keys themselves are left in place.
    fn migrate_from_legacy(&mut self) -> (r: u64)
        requires
            old(self).wf(),
        ensures
            final(self).wf(),
            final(self).inst() == migrated_instance(old(self).inst(), old(self).pers()),
            final(self).pers() == old(self).pers(),
            r as int == legacy_count(old(self).pers()),
    {
        let mut migrated: u64 = 0;
        if let Some(admin) = self.read_legacy_ident(StoreKey::LegacyAdmin) {
            self.set_admin(admin);
            migrated += 1;
        }
        if let Some(token) = self.read_legacy_ident(StoreKey::LegacyToken) {
            self.set_token(token);
            migrated += 1;
        }
        if let Some(governance) = self.read_legacy_ident(StoreKey::LegacyGov) {
            self.set_governance(governance);
            migrated += 1;
        }
        if let Some(counter) = self.read_legacy_counter() {
            self.write_counter(counter);
            migrated += 1;
        }
        migrated
    }

    /// Runs the one-way migration: a version-0 layout is stamped with the
    /// current version and nothing is moved; a version-1 layout has its
    /// legacy values copied over before the stamp; anything at or past the
    /// current version is a no-op. Returns the number of values moved.
    pub fn migrate_storage(&mut self) -> (r: u64)
        requires
            old(self).wf(),
        ensures
            final(self).wf(),
            final(self).inst() == migrate_result_instance(old(self).inst(), old(self).pers()),
            final(self).pers() == old(self).pers(),
            r as int == migrate_count(old(self).inst(), old(self).pers()),
            version_of(final(self).inst()) >= CURRENT_VERSION || version_of(final(self).inst())
                == version_of(old(self).inst()),
            version_of(old(self).inst()) < CURRENT_VERSION ==> version_of(final(self).inst())
                == CURRENT_VERSION,
    {
        let current_version = self.get_version();
        if current_version == 0 {
            self.set_version(CURRENT_VERSION);
            0
        } else if current_version == 1 {
            let migrated = self.migrate_from_legacy();
            self.set_version(CURRENT_VERSION);
            migrated
        } else {
            0
        }
    }

    /// Whether any of the four legacy keys is present: a pre-flight check
    /// before attempting migration.
    pub fn has_legacy_data(&self) -> (r: bool)
        requires
            self.wf(),
        ensures
            r == (self.pers().dom().contains(StoreKey::LegacyAdmin) || self.pers().dom().contains(
                StoreKey::LegacyToken,
            ) || self.pers().dom().contains(StoreKey::LegacyGov) || self.pers().dom().contains(
                StoreKey::LegacyCnt,
            )),
    {
        self.persistent.has(StoreKey::LegacyAdmin) || self.persistent.has(StoreKey::LegacyToken)
            || self.persistent.has(StoreKey::LegacyGov) || self.persistent.has(StoreKey::LegacyCnt)
    }

    /// Writes the legacy admin key, as the pre-structured layout did.
    pub fn set_legacy_admin(&mut self, admin: Identity)
        requires
            old(self).wf(),
        ensures
            final(self).wf(),
            final(self).pers() == old(self).pers().insert(
                StoreKey::LegacyAdmin,
                Value::<R>::Ident(admin),
            ),
            final(self).inst() == old(self).inst(),
    {
        proof {
            lemma_persistent_typed_insert(
                self.pers(),
                StoreKey::LegacyAdmin,
                Value::<R>::Ident(admin),
            );
        }
        self.persistent.set(StoreKey::LegacyAdmin, Value::Ident(admin));
    }

    /// Writes the legacy token key, as the pre-structured layout did.
    pub fn set_legacy_token(&mut self, token: Identity)
        requires
            old(self).wf(),
        ensures
            final(self).wf(),
            final(self).pers() == old(self).pers().insert(
                StoreKey::LegacyToken,
                Value::<R>::Ident(token),
            ),
            final(self).inst() == old(self).inst(),
    {
        proof {
            lemma_persistent_typed_insert(
                self.pers(),
                StoreKey::LegacyToken,
                Value::<R>::Ident(token),
            );
        }
        self.persistent.set(StoreKey::LegacyToken, Value::Ident(token));
    }

    /// Writes the legacy governance key, as the pre-structured layout did.
    pub fn set_legacy_governance(&mut self, governance: Identity)
        requires
            old(self).wf(),
        ensures
            final(self).wf(),
            final(self).pers() == old(self).pers().insert(
                StoreKey::LegacyGov,
                Value::<R>::Ident(governance),
            ),
            final(self).inst() == old(self).inst(),
    {
        proof {
            lemma_persistent_typed_insert(
                self.pers(),
                StoreKey::LegacyGov,
                Value::<R>::Ident(governance),
            );
        }
        self.persistent.set(StoreKey::LegacyGov, Value::Ident(governance));
    }

    /// Writes the legacy counter key, as the pre-structured layout did.
    pub fn set_legacy_counter(&mut self, counter: u64)
        requires
            old(self).wf(),
        ensures
            final(self).wf(),
            final(self).pers() == old(self).pers().insert(
                StoreKey::LegacyCnt,
                Value::<R>::U64(counter),
            ),
            final(self).inst() == old(self).inst(),
    {
        proof {
            lemma_persistent_typed_insert(
                self.pers(),
                StoreKey::LegacyCnt,
                Value::<R>::U64(counter),
            );
        }
        self.persistent.set(StoreKey::LegacyCnt, Value::U64(counter));
    }
}

impl<R: Copy> AcademyStorage<R> {
    /// The schedule record stored under `id`, or absent when never written.
    pub fn get_schedule(&self, schedule_id: u64) -> (r: Option<R>)
        requires
            self.wf(),
        ensures
            r == schedule_of(self.pers(), schedule_id),
    {
        match self.persistent.get(StoreKey::Data(AcademyDataKey::Schedule(schedule_id))) {
            Some(v) => match v {
                Value::Rec(rec) => Some(*rec),
                _ => None,
            },
            None => None,
        }
    }

    /// The records of one user's schedules, in index order, silently
    /// skipping every identifier whose record is absent.
    pub fn get_user_schedules(&self, user: Identity) -> (r: Vec<R>)
        requires
            self.wf(),
        ensures
            r@ == resolved_schedules(self.pers(), user_ids_of(self.pers(), user)),
    {
        let ids = self.get_user_schedule_ids(user);
        let mut out: Vec<R> = Vec::new();
        let mut i: usize = 0;
        while i < ids.len()
            invariant
                i <= ids@.len(),
                self.wf(),
                ids@ == user_ids_of(self.pers(), user),
                out@ == resolved_schedules(self.pers(), ids@.take(i as int)),
            decreases ids@.len() - i,
        {
            proof {
                assert(ids@.take(i as int + 1).drop_last() =~= ids@.take(i as int));
                assert(ids@.take(i as int + 1).last() == ids@[i as int]);
            }
            match self.get_schedule(ids[i]) {
                Some(rec) => out.push(rec),
                None => {},
            }
            i += 1;
        }
        proof {
            assert(ids@.take(ids@.len() as int) =~= ids@);
        }
        out
    }
}

} // verus!
