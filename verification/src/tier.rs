//! One storage tier: a flat keyed store with structural keys.
//!
//! A tier is modeled abstractly as a `Map<StoreKey, Value<R>>` and
//! implemented as a vector of entries with pairwise-distinct keys, rebuilt
//! in place on every write. `R` is the vesting-schedule record type, which
//! is opaque to this layer.

use vstd::prelude::*;

use crate::keys::Identity;
use crate::keys::StoreKey;

verus! {

/// A value held under one key of a tier: one variant per value shape that
/// the layer stores.
pub enum Value<R> {
    /// A flag (the initialization marker).
    Bool(bool),
    /// A schema version.
    U32(u32),
    /// A counter value.
    U64(u64),
    /// An account identity.
    Ident(Identity),
    /// A sequence of schedule identifiers (an index entry).
    Ids(Vec<u64>),
    /// A vesting-schedule record, opaque to this layer.
    Rec(R),
}

/// The map described by an entry sequence; later entries take precedence,
/// though the store keeps keys distinct so the order never matters.
pub open spec fn assoc_map<R>(s: Seq<(StoreKey, Value<R>)>) -> Map<StoreKey, Value<R>>
    decreases s.len(),
{
    if s.len() == 0 {
        Map::empty()
    } else {
        assoc_map(s.drop_last()).insert(s.last().0, s.last().1)
    }
}

/// No two entries share a key.
pub open spec fn distinct_keys<R>(s: Seq<(StoreKey, Value<R>)>) -> bool {
    forall|i: int, j: int|
        0 <= i < j < s.len() ==> (#[trigger] s[i]).0 != (#[trigger] s[j]).0
}

/// A key is in the map iff some entry carries it.
pub proof fn lemma_assoc_contains<R>(s: Seq<(StoreKey, Value<R>)>, k: StoreKey)
    ensures
        assoc_map(s).dom().contains(k) <==> exists|i: int|
            0 <= i < s.len() && (#[trigger] s[i]).0 == k,
    decreases s.len(),
{
    if s.len() == 0 {
    } else {
        lemma_assoc_contains(s.drop_last(), k);
        if s.last().0 == k {
            assert(s[s.len() - 1].0 == k);
        } else {
            if exists|i: int| 0 <= i < s.len() && (#[trigger] s[i]).0 == k {
                let i = choose|i: int| 0 <= i < s.len() && (#[trigger] s[i]).0 == k;
                assert(s.drop_last()[i] == s[i]);
            }
            if exists|i: int| 0 <= i < s.len() - 1 && (#[trigger] s.drop_last()[i]).0 == k {
                let i = choose|i: int|
                    0 <= i < s.len() - 1 && (#[trigger] s.drop_last()[i]).0 == k;
                assert(s[i] == s.drop_last()[i]);
            }
        }
    }
}

/// With distinct keys, the map's value at a key is the value of the entry
/// that carries it.
pub proof fn lemma_assoc_value<R>(s: Seq<(StoreKey, Value<R>)>, i: int, k: StoreKey)
    requires
        distinct_keys(s),
        0 <= i < s.len(),
        s[i].0 == k,
    ensures
        assoc_map(s).dom().contains(k),
        assoc_map(s)[k] == s[i].1,
    decreases s.len(),
{
    if i == s.len() - 1 {
    } else {
        assert(s.drop_last()[i] == s[i]);
        lemma_assoc_value(s.drop_last(), i, k);
        assert(s.last().0 != k);
    }
}

/// Overwriting the entry that carries a key updates the map at that key
/// alone.
pub proof fn lemma_assoc_update<R>(
    s: Seq<(StoreKey, Value<R>)>,
    i: int,
    k: StoreKey,
    v: Value<R>,
)
    requires
        distinct_keys(s),
        0 <= i < s.len(),
        s[i].0 == k,
    ensures
        assoc_map(s.update(i, (k, v))) == assoc_map(s).insert(k, v),
        distinct_keys(s.update(i, (k, v))),
    decreases s.len(),
{
    let t = s.update(i, (k, v));
    assert forall|p: int, q: int| 0 <= p < q < t.len() implies (#[trigger] t[p]).0
        != (#[trigger] t[q]).0 by {
        assert(s[p].0 != s[q].0);
    }
    if i == s.len() - 1 {
        assert(t.drop_last() =~= s.drop_last());
        assert(t.last() == (k, v));
        assert(assoc_map(t) == assoc_map(s.drop_last()).insert(k, v));
        assert(assoc_map(s.drop_last()).insert(k, v) =~= assoc_map(s).insert(k, v));
    } else {
        assert(t.drop_last() =~= s.drop_last().update(i, (k, v)));
        assert(t.last() == s.last());
        assert(s.drop_last()[i] == s[i]);
        lemma_assoc_update(s.drop_last(), i, k, v);
        assert(s.last().0 != k);
        assert(assoc_map(t) == assoc_map(s.drop_last()).insert(k, v).insert(
            s.last().0,
            s.last().1,
        ));
        assert(assoc_map(s.drop_last()).insert(k, v).insert(s.last().0, s.last().1)
            =~= assoc_map(s).insert(k, v));
    }
}

/// One storage tier of the layer.
pub struct Tier<R> {
    entries: Vec<(StoreKey, Value<R>)>,
}

impl<R> View for Tier<R> {
    type V = Map<StoreKey, Value<R>>;

    closed spec fn view(&self) -> Map<StoreKey, Value<R>> {
        assoc_map(self.entries@)
    }
}

impl<R> Tier<R> {
    /// The tier's keys are pairwise distinct, so a linear scan finds the one
    /// entry that the map speaks of.
    pub closed spec fn wf(&self) -> bool {
        distinct_keys(self.entries@)
    }

    /// An empty tier.
    pub fn new() -> (t: Self)
        ensures
            t.wf(),
            t@ == Map::<StoreKey, Value<R>>::empty(),
    {
        Tier { entries: Vec::new() }
    }

    /// The index of the entry carrying `k`, if any.
    fn find_index(&self, k: StoreKey) -> (r: Option<usize>)
        ensures
            match r {
                Some(i) => i < self.entries@.len() && self.entries@[i as int].0 == k,
                None => forall|j: int|
                    0 <= j < self.entries@.len() ==> (#[trigger] self.entries@[j]).0 != k,
            },
    {
        let mut i: usize = 0;
        while i < self.entries.len()
            invariant
                i <= self.entries@.len(),
                forall|j: int| 0 <= j < i ==> (#[trigger] self.entries@[j]).0 != k,
            decreases self.entries@.len() - i,
        {
            if self.entries[i].0 == k {
                return Some(i);
            }
            i += 1;
        }
        None
    }

    /// Whether the tier holds a value under `k`.
    pub fn has(&self, k: StoreKey) -> (r: bool)
        ensures
            r == self@.dom().contains(k),
    {
        proof {
            lemma_assoc_contains(self.entries@, k);
        }
        match self.find_index(k) {
            Some(_) => true,
            None => false,
        }
    }

    /// The value under `k`, if any.
    pub fn get(&self, k: StoreKey) -> (r: Option<&Value<R>>)
        requires
            self.wf(),
        ensures
            match r {
                Some(v) => self@.dom().contains(k) && *v == self@[k],
                None => !self@.dom().contains(k),
            },
    {
        match self.find_index(k) {
            Some(i) => {
                proof {
                    lemma_assoc_value(self.entries@, i as int, k);
                }
                Some(&self.entries[i].1)
            },
            None => {
                proof {
                    lemma_assoc_contains(self.entries@, k);
                }
                None
            },
        }
    }

    /// Unconditional upsert: afterwards the tier holds `v` under `k` and is
    /// unchanged elsewhere.
    pub fn set(&mut self, k: StoreKey, v: Value<R>)
        requires
            old(self).wf(),
        ensures
            final(self).wf(),
            final(self)@ == old(self)@.insert(k, v),
    {
        let ghost s0 = self.entries@;
        let ghost gv = v;
        match self.find_index(k) {
            Some(i) => {
                self.entries[i] = (k, v);
                proof {
                    assert(self.entries@ == s0.update(i as int, (k, gv)));
                    lemma_assoc_update(s0, i as int, k, gv);
                }
            },
            None => {
                proof {
                    lemma_assoc_contains(s0, k);
                }
                self.entries.push((k, v));
                proof {
                    assert(self.entries@.drop_last() =~= s0);
                    assert forall|p: int, q: int|
                        0 <= p < q < self.entries@.len() implies (#[trigger] self.entries@[p]).0
                        != (#[trigger] self.entries@[q]).0 by {
                        if q < s0.len() {
                            assert(s0[p].0 != s0[q].0);
                        } else {
                            assert(s0[p].0 != k);
                        }
                    }
                }
            },
        }
    }
}

} // verus!
