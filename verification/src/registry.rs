//! A small keyed registry — the store behind the lifetime tracker and the
//! texture cache: unique keys, insertion order kept, removal by key.

use vstd::prelude::*;

verus! {

/// The identity of a backend resource: slot index and generation.
#[derive(Clone, Copy, Debug, PartialEq, Eq, Structural)]
pub struct Key {
    pub index: u32,
    pub generation: u32,
}

/// Entries keyed by [`Key`], each key at most once.
pub struct Registry<V> {
    keys: Vec<Key>,
    values: Vec<V>,
}

/// No key occurs twice.
pub open spec fn unique_keys(keys: Seq<Key>) -> bool {
    forall|a: int, b: int| 0 <= a < keys.len() && 0 <= b < keys.len() && a != b ==> keys[a] != keys[b]
}

impl<V> Registry<V> {
    pub closed spec fn wf(&self) -> bool {
        &&& self.keys@.len() == self.values@.len()
        &&& unique_keys(self.keys@)
    }

    /// The keys, in insertion order.
    pub closed spec fn keys(&self) -> Seq<Key> {
        self.keys@
    }

    /// The values, in insertion order (aligned with `keys`).
    pub closed spec fn values(&self) -> Seq<V> {
        self.values@
    }

    /// Whether the key is registered.
    pub open spec fn has(&self, k: Key) -> bool {
        self.keys().contains(k)
    }

    /// The value registered under a key.
    pub open spec fn at(&self, k: Key) -> V {
        self.values()[self.keys().index_of(k)]
    }

    /// The entries as a map.
    pub open spec fn view(&self) -> Map<Key, V> {
        Map::new(|k: Key| self.has(k), |k: Key| self.at(k))
    }

    /// With unique keys, the position of the key at `i` is `i`.
    pub proof fn lemma_position(&self, i: int)
        requires
            self.wf(),
            0 <= i < self.keys().len(),
        ensures
            self.keys().index_of(self.keys()[i]) == i,
            self.has(self.keys()[i]),
            self.at(self.keys()[i]) == self.values()[i],
    {
        let k = self.keys()[i];
        assert(self.keys@[i] == k);
        let j = self.keys@.index_of(k);
        assert(0 <= j < self.keys@.len() && self.keys@[j] == k);
        assert(self.keys@.contains(k));
    }

    /// An empty registry.
    pub fn new() -> (r: Self)
        ensures
            r.wf(),
            r.keys() == Seq::<Key>::empty(),
            r.values() == Seq::<V>::empty(),
            r@ == Map::<Key, V>::empty(),
    {
        let r = Registry { keys: Vec::new(), values: Vec::new() };
        assert(r@ =~= Map::<Key, V>::empty());
        r
    }

    /// The number of entries.
    pub fn len(&self) -> (n: usize)
        requires
            self.wf(),
        ensures
            n == self.keys().len(),
            n == self.values().len(),
    {
        self.keys.len()
    }

    /// The position of a key.
    pub fn find(&self, k: Key) -> (position: Option<usize>)
        requires
            self.wf(),
        ensures
            match position {
                Some(i) => i < self.keys().len() && i < self.values().len() && self.keys()[i as int] == k
                    && self.keys().index_of(k) == i,
                None => !self.has(k),
            },
    {
        let mut i: usize = 0;
        while i < self.keys.len()
            invariant
                self.wf(),
                i <= self.keys@.len(),
                forall|j: int| 0 <= j < i ==> self.keys@[j] != k,
            decreases self.keys@.len() - i,
        {
            if self.keys[i] == k {
                proof {
                    self.keys@.index_of_first_ensures(k);
                    assert(self.keys@.contains(k));
                    let f = self.keys@.index_of(k);
                    assert(unique_keys(self.keys@));
                    if f != i {
                        assert(self.keys@[f] == self.keys@[i as int]);
                    }
                }
                return Some(i);
            }
            i = i + 1;
        }
        None
    }

    /// The value at a position.
    pub fn value_at(&self, i: usize) -> (v: &V)
        requires
            self.wf(),
            i < self.values().len(),
        ensures
            *v == self.values()[i as int],
    {
        &self.values[i]
    }

    /// The key at a position.
    pub fn key_at(&self, i: usize) -> (k: Key)
        requires
            self.wf(),
            i < self.keys().len(),
        ensures
            k == self.keys()[i as int],
    {
        self.keys[i]
    }

    /// The value registered under a key, if any.
    pub fn get(&self, k: Key) -> (v: Option<&V>)
        requires
            self.wf(),
        ensures
            v is Some == self.has(k),
            v matches Some(x) ==> *x == self.at(k),
    {
        match self.find(k) {
            Some(i) => Some(&self.values[i]),
            None => None,
        }
    }

    /// Registers a new key at the end.
    pub fn insert(&mut self, k: Key, v: V)
        requires
            old(self).wf(),
            !old(self).has(k),
        ensures
            final(self).wf(),
            final(self).keys() == old(self).keys().push(k),
            final(self).values() == old(self).values().push(v),
            final(self)@ == old(self)@.insert(k, v),
    {
        self.keys.push(k);
        self.values.push(v);
        proof {
            assert forall|a: int, b: int|
                0 <= a < self.keys@.len() && 0 <= b < self.keys@.len() && a != b implies self.keys@[a]
                != self.keys@[b] by {
                if a == self.keys@.len() - 1 {
                    assert(old(self).keys@.contains(k) == false);
                    if self.keys@[b] == k {
                        assert(old(self).keys@[b] == k);
                    }
                } else if b == self.keys@.len() - 1 {
                    if self.keys@[a] == k {
                        assert(old(self).keys@[a] == k);
                    }
                }
            }
            assert forall|q: Key| #[trigger] self@.contains_key(q) == old(self)@.insert(k, v).contains_key(q)
                && (self@.contains_key(q) ==> self@[q] == old(self)@.insert(k, v)[q]) by {
                if self.keys@.contains(q) {
                    let i = choose|i: int| 0 <= i < self.keys@.len() && self.keys@[i] == q;
                    self.lemma_position(i);
                    if i < old(self).keys@.len() {
                        old(self).lemma_position(i);
                    }
                }
                if old(self).keys@.contains(q) {
                    let i = choose|i: int| 0 <= i < old(self).keys@.len() && old(self).keys@[i] == q;
                    assert(self.keys@[i] == q);
                    assert(self.keys@.contains(q));
                }
                if q == k {
                    assert(self.keys@[self.keys@.len() - 1] == k);
                    assert(self.keys@.contains(q));
                }
            }
            assert(self@ =~= old(self)@.insert(k, v));
        }
    }

    /// A registry whose values differ from `self` only at position `i`
    /// keeps its well-formedness, and its map changes at that key only.
    pub proof fn lemma_update(&self, other: &Self, i: int)
        requires
            self.wf(),
            0 <= i < self.values().len(),
            other.keys() == self.keys(),
            other.values() == self.values().update(i, other.values()[i]),
        ensures
            other.wf(),
            other@ == self@.insert(self.keys()[i], other.values()[i]),
    {
        let k = self.keys@[i];
        assert forall|q: Key| #[trigger] other@.contains_key(q) == self@.insert(k, other.values@[i]).contains_key(q)
            && (other@.contains_key(q) ==> other@[q] == self@.insert(k, other.values@[i])[q]) by {
            if other.keys@.contains(q) {
                let j = choose|j: int| 0 <= j < other.keys@.len() && other.keys@[j] == q;
                other.lemma_position(j);
                self.lemma_position(j);
            }
        }
        assert(other@ =~= self@.insert(k, other.values@[i]));
    }

    /// Replaces the value at a position, returning the previous one.
    pub fn set_at(&mut self, i: usize, v: V) -> (previous: V)
        requires
            old(self).wf(),
            i < old(self).values().len(),
        ensures
            final(self).wf(),
            final(self).keys() == old(self).keys(),
            final(self).values() == old(self).values().update(i as int, v),
            previous == old(self).values()[i as int],
            final(self)@ == old(self)@.insert(old(self).keys()[i as int], v),
    {
        let mut previous = v;
        std::mem::swap(&mut previous, &mut self.values[i]);
        proof {
            let k = self.keys@[i as int];
            assert forall|q: Key| #[trigger] self@.contains_key(q) == old(self)@.insert(k, v).contains_key(q)
                && (self@.contains_key(q) ==> self@[q] == old(self)@.insert(k, v)[q]) by {
                if self.keys@.contains(q) {
                    let j = choose|j: int| 0 <= j < self.keys@.len() && self.keys@[j] == q;
                    self.lemma_position(j);
                    old(self).lemma_position(j);
                }
            }
            assert(self@ =~= old(self)@.insert(k, v));
        }
        previous
    }

    /// The value at a position, for in-place modification.
    pub fn value_mut(&mut self, i: usize) -> (v: &mut V)
        requires
            old(self).wf(),
            i < old(self).values().len(),
        ensures
            *v == old(self).values()[i as int],
            final(self).keys() == old(self).keys(),
            final(self).values() == old(self).values().update(i as int, *final(v)),
    {
        &mut self.values[i]
    }

    /// Removes the entry at a position, keeping the order of the others.
    pub fn remove_at(&mut self, i: usize) -> (removed: (Key, V))
        requires
            old(self).wf(),
            i < old(self).values().len(),
        ensures
            final(self).wf(),
            final(self).keys() == old(self).keys().remove(i as int),
            final(self).values() == old(self).values().remove(i as int),
            removed.0 == old(self).keys()[i as int],
            removed.1 == old(self).values()[i as int],
            final(self)@ == old(self)@.remove(old(self).keys()[i as int]),
            old(self)@.contains_key(old(self).keys()[i as int]),
    {
        let k = self.keys.remove(i);
        let v = self.values.remove(i);
        proof {
            assert forall|a: int, b: int|
                0 <= a < self.keys@.len() && 0 <= b < self.keys@.len() && a != b implies self.keys@[a]
                != self.keys@[b] by {
                let oa = if a < i { a } else { a + 1 };
                let ob = if b < i { b } else { b + 1 };
                assert(self.keys@[a] == old(self).keys@[oa]);
                assert(self.keys@[b] == old(self).keys@[ob]);
            }
            let k = old(self).keys@[i as int];
            old(self).lemma_position(i as int);
            assert forall|q: Key| #[trigger] self@.contains_key(q) == old(self)@.remove(k).contains_key(q)
                && (self@.contains_key(q) ==> self@[q] == old(self)@.remove(k)[q]) by {
                if self.keys@.contains(q) {
                    let j = choose|j: int| 0 <= j < self.keys@.len() && self.keys@[j] == q;
                    self.lemma_position(j);
                    let oj = if j < i { j } else { j + 1 };
                    assert(old(self).keys@[oj] == q);
                    old(self).lemma_position(oj);
                }
                if old(self).keys@.contains(q) && q != k {
                    let j = choose|j: int| 0 <= j < old(self).keys@.len() && old(self).keys@[j] == q;
                    let nj = if j < i { j } else { j - 1 };
                    assert(self.keys@[nj] == q);
                }
            }
            assert(self@ =~= old(self)@.remove(k));
        }
        (k, v)
    }

    /// Removes every entry, returning nothing.
    pub fn clear(&mut self)
        requires
            old(self).wf(),
        ensures
            final(self).wf(),
            final(self).keys() == Seq::<Key>::empty(),
            final(self).values() == Seq::<V>::empty(),
            final(self)@ == Map::<Key, V>::empty(),
    {
        self.keys.clear();
        self.values.clear();
        assert(self@ =~= Map::<Key, V>::empty());
    }
}

} // verus!
