//! The state store: a durable mapping from opaque 128-bit keys to
//! records.
//!
//! `load` of a never-seen key returns absence, which is the expected
//! empty path, never an error; `save` overwrites wholesale
//! (last-writer-wins). Handlers hold only transient copies obtained via
//! `load` and discarded after `save`; the store owns the durable copy.

use vstd::prelude::*;

verus! {

/// A mapping from opaque keys to records of type `V`.
pub struct KvStore<V> {
    entries: Vec<(u128, V)>,
}

impl<V> KvStore<V> {
    /// Whether some entry carries `k`.
    pub closed spec fn spec_has(self, k: u128) -> bool {
        exists|i: int| 0 <= i < self.entries@.len() && self.entries@[i].0 == k
    }

    /// The position of the entry carrying `k`, when one exists.
    pub closed spec fn spec_index_of(self, k: u128) -> int {
        choose|i: int| 0 <= i < self.entries@.len() && self.entries@[i].0 == k
    }

    /// The mapping the store currently holds.
    pub closed spec fn contents(self) -> Map<u128, V> {
        Map::new(
            |k: u128| self.spec_has(k),
            |k: u128| self.entries@[self.spec_index_of(k)].1,
        )
    }

    /// Well-formed: each key appears at most once.
    pub closed spec fn wf(self) -> bool {
        forall|i: int, j: int|
            0 <= i < j < self.entries@.len() ==> self.entries@[i].0 != self.entries@[j].0
    }

    proof fn lemma_value_at(self, k: u128, i: int)
        requires
            self.wf(),
            0 <= i < self.entries@.len(),
            self.entries@[i].0 == k,
        ensures
            self.spec_has(k),
            self.spec_index_of(k) == i,
            self.contents().contains_key(k),
            self.contents()[k] == self.entries@[i].1,
    {
        assert(self.spec_has(k));
        let j = self.spec_index_of(k);
        assert(0 <= j < self.entries@.len() && self.entries@[j].0 == k);
        if i < j {
            assert(self.entries@[i].0 != self.entries@[j].0);
        } else if j < i {
            assert(self.entries@[j].0 != self.entries@[i].0);
        }
    }

    /// An empty store.
    pub fn new() -> (s: Self)
        ensures
            s.wf(),
            s.contents() == Map::<u128, V>::empty(),
    {
        let s = KvStore { entries: Vec::new() };
        proof {
            assert(s.contents() =~= Map::<u128, V>::empty());
        }
        s
    }

    /// Reads the record under `k`. Absence is the one legitimate empty
    /// case: it signals a first visit, not a failure.
    pub fn load(&self, k: u128) -> (r: Option<&V>)
        requires
            self.wf(),
        ensures
            match r {
                Some(v) => self.contents().contains_key(k) && *v == self.contents()[k],
                None => !self.contents().contains_key(k),
            },
    {
        let n = self.entries.len();
        let mut i: usize = 0;
        while i < n
            invariant
                n == self.entries@.len(),
                i <= n,
                self.wf(),
                forall|j: int| 0 <= j < i ==> self.entries@[j].0 != k,
            decreases n - i,
        {
            let e = &self.entries[i];
            if e.0 == k {
                proof {
                    self.lemma_value_at(k, i as int);
                }
                return Some(&e.1);
            }
            i = i + 1;
        }
        proof {
            assert(!self.spec_has(k));
        }
        None
    }

    /// Writes the record under `k`, overwriting any previous one
    /// wholesale.
    pub fn save(&mut self, k: u128, v: V)
        requires
            old(self).wf(),
        ensures
            final(self).wf(),
            final(self).contents() == old(self).contents().insert(k, v),
    {
        let n = self.entries.len();
        let mut i: usize = 0;
        while i < n
            invariant
                n == self.entries@.len(),
                i <= n,
                self.wf(),
                *self == *old(self),
                forall|j: int| 0 <= j < i ==> self.entries@[j].0 != k,
            decreases n - i,
        {
            if self.entries[i].0 == k {
                self.entries[i] = (k, v);
                proof {
                    let ghost new = *self;
                    assert(new.wf());
                    new.lemma_value_at(k, i as int);
                    assert forall|k2: u128| k2 != k && old(self).spec_has(k2) implies new.spec_has(
                        k2,
                    ) && new.contents()[k2] == old(self).contents()[k2] by {
                        let w = old(self).spec_index_of(k2);
                        old(self).lemma_value_at(k2, w);
                        assert(new.entries@[w].0 == k2);
                        new.lemma_value_at(k2, w);
                    }
                    assert forall|k2: u128| k2 != k && new.spec_has(k2) implies old(
                        self,
                    ).spec_has(k2) by {
                        let w = new.spec_index_of(k2);
                        new.lemma_value_at(k2, w);
                        assert(old(self).entries@[w].0 == k2);
                    }
                    assert(new.contents() =~= old(self).contents().insert(k, v));
                }
                return ;
            }
            i = i + 1;
        }
        self.entries.push((k, v));
        proof {
            let ghost new = *self;
            assert forall|a: int, b: int|
                0 <= a < b < new.entries@.len() implies new.entries@[a].0 != new.entries@[b].0 by {
                if b < new.entries@.len() - 1 {
                    assert(old(self).entries@[a].0 != old(self).entries@[b].0);
                }
            }
            new.lemma_value_at(k, new.entries@.len() - 1);
            assert forall|k2: u128| k2 != k && old(self).spec_has(k2) implies new.spec_has(k2)
                && new.contents()[k2] == old(self).contents()[k2] by {
                let w = old(self).spec_index_of(k2);
                old(self).lemma_value_at(k2, w);
                assert(new.entries@[w].0 == k2);
                new.lemma_value_at(k2, w);
            }
            assert forall|k2: u128| k2 != k && new.spec_has(k2) implies old(self).spec_has(k2) by {
                let w = new.spec_index_of(k2);
                new.lemma_value_at(k2, w);
                assert(new.entries@[w].0 == k2);
                assert(w < old(self).entries@.len());
            }
            assert(new.contents() =~= old(self).contents().insert(k, v));
        }
    }
}

impl KvStore<u128> {
    /// Whether some entry stores `v` as its value.
    pub closed spec fn spec_has_value(self, v: u128) -> bool {
        exists|k: u128| #[trigger] self.contents().contains_key(k) && self.contents()[k] == v
    }

    /// A stored value has a key it sits under.
    pub proof fn lemma_value_witness(self, v: u128) -> (k: u128)
        requires
            self.spec_has_value(v),
        ensures
            self.contents().contains_key(k),
            self.contents()[k] == v,
    {
        choose|k: u128| #[trigger] self.contents().contains_key(k) && self.contents()[k] == v
    }

    /// A value under a key is a stored value.
    pub proof fn lemma_value_intro(self, k: u128)
        requires
            self.contents().contains_key(k),
        ensures
            self.spec_has_value(self.contents()[k]),
    {
        assert(self.contents().contains_key(k) && self.contents()[k] == self.contents()[k]);
    }

    /// Scans for `v` among the stored values.
    pub fn has_value(&self, v: u128) -> (r: bool)
        requires
            self.wf(),
        ensures
            r == self.spec_has_value(v),
    {
        let n = self.entries.len();
        let mut i: usize = 0;
        while i < n
            invariant
                n == self.entries@.len(),
                i <= n,
                self.wf(),
                forall|j: int| 0 <= j < i ==> self.entries@[j].1 != v,
            decreases n - i,
        {
            let key = self.entries[i].0;
            let val = self.entries[i].1;
            if val == v {
                proof {
                    self.lemma_value_at(key, i as int);
                }
                return true;
            }
            i = i + 1;
        }
        proof {
            assert forall|k: u128|
                self.contents().contains_key(k) implies self.contents()[k] != v by {
                assert(self.spec_has(k));
                let w = self.spec_index_of(k);
                assert(0 <= w < self.entries@.len() && self.entries@[w].0 == k);
                self.lemma_value_at(k, w);
            }
        }
        false
    }
}

} // verus!
