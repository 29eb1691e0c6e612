//! The generational resource pool behind mesh and material handles: a
//! handle resolves only while its entry lives; once removed it is stale for
//! good, even when its slot is reused.

use vstd::prelude::*;

verus! {

/// A generational handle into a [`ResourcePool`].
#[derive(Clone, Copy, Debug, PartialEq, Eq, Structural)]
pub struct PoolHandle {
    pub index: u32,
    pub generation: u32,
}

/// The most slots a pool ever opens (the index is a `u32`).
pub const MAX_SLOTS: usize = 0xFFFF_FFFF;

/// A pool of values addressed by generational handles. Removing an entry
/// bumps its slot's generation (the slot is then reused); a slot whose
/// generation is exhausted is closed for good.
pub struct ResourcePool<T> {
    values: Vec<Option<T>>,
    generations: Vec<u32>,
    closed: Vec<bool>,
    free: Vec<u32>,
    live: usize,
}

/// The number of occupied slots.
pub open spec fn count_live<T>(values: Seq<Option<T>>) -> nat
    decreases values.len(),
{
    if values.len() == 0 {
        0
    } else {
        count_live(values.drop_last()) + if values.last() is Some { 1nat } else { 0nat }
    }
}

proof fn lemma_count_live_update<T>(values: Seq<Option<T>>, i: int, x: Option<T>)
    requires
        0 <= i < values.len(),
    ensures
        count_live(values.update(i, x)) + (if values[i] is Some { 1int } else { 0int })
            == count_live(values) + (if x is Some { 1int } else { 0int }),
    decreases values.len(),
{
    let updated = values.update(i, x);
    if i == values.len() - 1 {
        assert(updated.drop_last() =~= values.drop_last());
    } else {
        lemma_count_live_update(values.drop_last(), i, x);
        assert(updated.drop_last() =~= values.drop_last().update(i, x));
    }
}

proof fn lemma_count_live_push<T>(values: Seq<Option<T>>, x: Option<T>)
    ensures
        count_live(values.push(x)) == count_live(values) + (if x is Some { 1nat } else { 0nat }),
{
    assert(values.push(x).drop_last() =~= values);
}

proof fn lemma_count_live_bound<T>(values: Seq<Option<T>>)
    ensures
        count_live(values) <= values.len(),
    decreases values.len(),
{
    if values.len() > 0 {
        lemma_count_live_bound(values.drop_last());
    }
}

impl<T> ResourcePool<T> {
    /// The internal consistency of the pool.
    pub closed spec fn wf(&self) -> bool {
        &&& self.values@.len() == self.generations@.len()
        &&& self.values@.len() == self.closed@.len()
        &&& self.values@.len() <= MAX_SLOTS
        &&& self.live == count_live(self.values@)
        &&& forall|k: int|
            0 <= k < self.free@.len() ==> {
                &&& (#[trigger] self.free@[k]) < self.values@.len()
                &&& self.values@[self.free@[k] as int] is None
                &&& !self.closed@[self.free@[k] as int]
            }
        &&& forall|a: int, b: int|
            0 <= a < b < self.free@.len() ==> #[trigger] self.free@[a] != #[trigger] self.free@[b]
        &&& forall|i: int|
            0 <= i < self.values@.len() && #[trigger] self.closed@[i] ==> self.values@[i] is None
                && self.generations@[i] == u32::MAX
        &&& forall|i: int|
            0 <= i < self.values@.len() && #[trigger] self.values@[i] is None && !self.closed@[i]
                ==> self.free@.contains(i as u32)
    }

    /// The handle designates a live entry.
    pub closed spec fn live(&self, h: PoolHandle) -> bool {
        &&& (h.index as int) < self.values@.len()
        &&& self.generations@[h.index as int] == h.generation
        &&& self.values@[h.index as int] is Some
    }

    /// The handle can never resolve again in this pool nor in any later
    /// state of it: its slot moved to a newer generation, or was closed at
    /// the handle's generation.
    pub closed spec fn dead(&self, h: PoolHandle) -> bool {
        &&& (h.index as int) < self.values@.len()
        &&& (self.generations@[h.index as int] > h.generation || (self.generations@[
            h.index as int] == h.generation && self.closed@[h.index as int]))
    }

    /// `self` is a later state of `earlier`: no slot vanished, generations
    /// only grew, closed slots stayed closed.
    pub closed spec fn evolves_from(&self, earlier: &Self) -> bool {
        &&& self.values@.len() >= earlier.values@.len()
        &&& forall|i: int|
            0 <= i < earlier.values@.len() ==> #[trigger] self.generations@[i]
                >= earlier.generations@[i]
        &&& forall|i: int|
            0 <= i < earlier.values@.len() && #[trigger] earlier.closed@[i] ==> self.closed@[i]
                && self.generations@[i] == earlier.generations@[i]
    }

    /// No handle can be issued any more.
    pub closed spec fn full(&self) -> bool {
        self.free@.len() == 0 && self.values@.len() == MAX_SLOTS
    }

    /// The live entries, by handle.
    pub closed spec fn view(&self) -> Map<PoolHandle, T> {
        Map::new(|h: PoolHandle| self.live(h), |h: PoolHandle| self.values@[h.index as int]->0)
    }

    /// The number of live entries.
    pub closed spec fn spec_len(&self) -> nat {
        count_live(self.values@)
    }

    /// An empty pool.
    /// The handle the live entry of a slot would have.
    pub closed spec fn slot_handle(&self, index: u32) -> PoolHandle {
        PoolHandle {
            index,
            generation: if (index as int) < self.generations@.len() {
                self.generations@[index as int]
            } else {
                0
            },
        }
    }

    /// The live entry of a slot, if any.
    pub fn get_slot(&self, index: u32) -> (entry: Option<&T>)
        requires
            self.wf(),
        ensures
            entry is Some == self@.contains_key(self.slot_handle(index)),
            entry matches Some(v) ==> *v == self@[self.slot_handle(index)],
    {
        let i = index as usize;
        if i < self.values.len() {
            match &self.values[i] {
                Some(v) => Some(v),
                None => None,
            }
        } else {
            None
        }
    }

    pub fn new() -> (pool: Self)
        ensures
            pool.wf(),
            pool@ == Map::<PoolHandle, T>::empty(),
            pool.spec_len() == 0,
    {
        let pool = ResourcePool {
            values: Vec::new(),
            generations: Vec::new(),
            closed: Vec::new(),
            free: Vec::new(),
            live: 0,
        };
        assert(pool@ =~= Map::<PoolHandle, T>::empty());
        pool
    }

    /// The number of live entries.
    pub fn len(&self) -> (n: usize)
        requires
            self.wf(),
        ensures
            n == self.spec_len(),
    {
        self.live
    }

    /// Whether the handle designates a live entry.
    pub fn contains(&self, h: PoolHandle) -> (found: bool)
        requires
            self.wf(),
        ensures
            found == self@.contains_key(h),
    {
        let i = h.index as usize;
        i < self.values.len() && self.generations[i] == h.generation && self.values[i].is_some()
    }

    /// The entry of a live handle; `None` for a stale or foreign handle.
    pub fn get(&self, h: PoolHandle) -> (entry: Option<&T>)
        requires
            self.wf(),
        ensures
            entry is Some == self@.contains_key(h),
            entry matches Some(v) ==> *v == self@[h],
    {
        let i = h.index as usize;
        if i < self.values.len() && self.generations[i] == h.generation {
            match &self.values[i] {
                Some(v) => Some(v),
                None => None,
            }
        } else {
            None
        }
    }

    /// Stores `value` under a fresh handle — `None` when the pool is full.
    pub fn insert(&mut self, value: T) -> (handle: Option<PoolHandle>)
        requires
            old(self).wf(),
        ensures
            final(self).wf(),
            final(self).evolves_from(old(self)),
            match handle {
                Some(h) => {
                    &&& !old(self)@.contains_key(h)
                    &&& !old(self).dead(h)
                    &&& final(self)@ == old(self)@.insert(h, value)
                    &&& final(self).spec_len() == old(self).spec_len() + 1
                },
                None => {
                    &&& old(self).full()
                    &&& final(self)@ == old(self)@
                    &&& final(self).spec_len() == old(self).spec_len()
                },
            },
    {
        proof {
            lemma_count_live_bound(self.values@);
        }
        let ghost before = *self;
        if let Some(index) = self.free.pop() {
            let i = index as usize;
            proof {
                lemma_count_live_update(self.values@, i as int, Some(value));
                lemma_count_live_bound(self.values@.update(i as int, Some(value)));
                assert(before.free@.contains(index));
            }
            self.values.set(i, Some(value));
            self.live = self.live + 1;
            let h = PoolHandle { index, generation: self.generations[i] };
            proof {
                assert forall|j: int|
                    0 <= j < self.values@.len() && #[trigger] self.values@[j] is None
                        && !self.closed@[j] implies self.free@.contains(j as u32) by {
                    assert(before.free@.contains(j as u32));
                    let k = choose|k: int| 0 <= k < before.free@.len() && before.free@[k] == j as u32;
                    if k == before.free@.len() - 1 {
                        assert(j == i);
                    } else {
                        assert(self.free@[k] == j as u32);
                    }
                }
                assert(self@ =~= before@.insert(h, value));
            }
            Some(h)
        } else if self.values.len() < MAX_SLOTS {
            let index = self.values.len() as u32;
            proof {
                lemma_count_live_push(self.values@, Some(value));
            }
            self.values.push(Some(value));
            self.generations.push(0);
            self.closed.push(false);
            self.live = self.live + 1;
            let h = PoolHandle { index, generation: 0 };
            proof {
                assert(self@ =~= before@.insert(h, value));
            }
            Some(h)
        } else {
            None
        }
    }

    /// Removes the entry of a live handle and returns it; the handle (and
    /// every older one of its slot) becomes dead. A stale handle is
    /// refused with `None`, the pool untouched.
    pub fn remove(&mut self, h: PoolHandle) -> (entry: Option<T>)
        requires
            old(self).wf(),
        ensures
            final(self).wf(),
            final(self).evolves_from(old(self)),
            if old(self)@.contains_key(h) {
                &&& entry == Some(old(self)@[h])
                &&& final(self)@ == old(self)@.remove(h)
                &&& final(self).dead(h)
                &&& final(self).spec_len() + 1 == old(self).spec_len()
            } else {
                &&& entry is None
                &&& final(self)@ == old(self)@
                &&& final(self).spec_len() == old(self).spec_len()
            },
    {
        let i = h.index as usize;
        if i < self.values.len() && self.generations[i] == h.generation && self.values[i].is_some() {
            let ghost before = *self;
            proof {
                lemma_count_live_update(self.values@, i as int, None);
            }
            let taken = self.values[i].take();
            self.live = self.live - 1;
            if h.generation < u32::MAX {
                self.generations.set(i, h.generation + 1);
                proof {
                    assert(!before.free@.contains(h.index)) by {
                        if before.free@.contains(h.index) {
                            let k = choose|k: int|
                                0 <= k < before.free@.len() && before.free@[k] == h.index;
                            assert(before.values@[i as int] is None);
                        }
                    }
                }
                self.free.push(h.index);
            } else {
                self.closed.set(i, true);
            }
            proof {
                assert forall|j: int|
                    0 <= j < self.values@.len() && #[trigger] self.values@[j] is None
                        && !self.closed@[j] implies self.free@.contains(j as u32) by {
                    if j != i {
                        assert(before.free@.contains(j as u32));
                        let k = choose|k: int|
                            0 <= k < before.free@.len() && before.free@[k] == j as u32;
                        assert(self.free@[k] == j as u32);
                    } else {
                        assert(self.free@[self.free@.len() - 1] == j as u32);
                    }
                }
                assert(self@ =~= before@.remove(h));
            }
            taken
        } else {
            None
        }
    }

    /// Replaces the entry of a live handle, returning the previous one; a
    /// stale handle is refused with `None`, the pool untouched.
    pub fn replace(&mut self, h: PoolHandle, value: T) -> (previous: Option<T>)
        requires
            old(self).wf(),
        ensures
            final(self).wf(),
            final(self).evolves_from(old(self)),
            final(self).spec_len() == old(self).spec_len(),
            if old(self)@.contains_key(h) {
                previous == Some(old(self)@[h]) && final(self)@ == old(self)@.insert(h, value)
            } else {
                previous is None && final(self)@ == old(self)@
            },
    {
        let i = h.index as usize;
        if i < self.values.len() && self.generations[i] == h.generation && self.values[i].is_some() {
            let ghost before = *self;
            proof {
                lemma_count_live_update(self.values@, i as int, Some(value));
            }
            let mut taken = Some(value);
            std::mem::swap(&mut taken, &mut self.values[i]);
            proof {
                assert(self@ =~= before@.insert(h, value));
            }
            taken
        } else {
            None
        }
    }
}

/// Law: a dead handle is never live, and stays dead in every later state
/// of the pool — a destroyed handle can never resolve again.
/// At most one live handle per slot: two live handles of the same index
/// are the same handle.
pub proof fn lemma_live_unique_index<T>(pool: &ResourcePool<T>, a: PoolHandle, b: PoolHandle)
    requires
        pool@.contains_key(a),
        pool@.contains_key(b),
        a.index == b.index,
    ensures
        a == b,
{
}

pub proof fn lemma_dead_stays_dead<T>(earlier: &ResourcePool<T>, later: &ResourcePool<T>, h: PoolHandle)
    requires
        earlier.wf(),
        later.wf(),
        later.evolves_from(earlier),
        earlier.dead(h),
    ensures
        later.dead(h),
        !later@.contains_key(h),
{
}

/// Law: evolution is transitive — a chain of operations is an evolution.
pub proof fn lemma_evolves_transitive<T>(a: &ResourcePool<T>, b: &ResourcePool<T>, c: &ResourcePool<T>)
    requires
        b.evolves_from(a),
        c.evolves_from(b),
    ensures
        c.evolves_from(a),
{
}

} // verus!
