//! A map from addresses to values, kept as a list in which no address
//! occurs twice.

use crate::hash::H256;
use vstd::prelude::*;

verus! {

/// A finite map keyed by address.
#[derive(Debug)]
pub struct AddressMap<V> {
    entries: Vec<(H256, V)>,
}

impl<V> View for AddressMap<V> {
    type V = Map<Seq<u8>, V>;

    closed spec fn view(&self) -> Map<Seq<u8>, V> {
        Map::new(
            |k: Seq<u8>| self.holds(k),
            |k: Seq<u8>| self.entries@[self.index_of(k)].1,
        )
    }
}

impl<V> AddressMap<V> {
    spec fn holds(&self, k: Seq<u8>) -> bool {
        exists|i: int| 0 <= i < self.entries@.len() && (#[trigger] self.entries@[i]).0@ == k
    }

    spec fn index_of(&self, k: Seq<u8>) -> int {
        choose|i: int| 0 <= i < self.entries@.len() && (#[trigger] self.entries@[i]).0@ == k
    }

    /// No address occurs twice.
    pub closed spec fn wf(&self) -> bool {
        forall|i: int, j: int|
            0 <= i < j < self.entries@.len() ==> (#[trigger] self.entries@[i]).0@ != (
            #[trigger] self.entries@[j]).0@
    }

    /// The number of addresses that the map holds.
    pub closed spec fn size(&self) -> nat {
        self.entries@.len()
    }

    proof fn lemma_index(&self, i: int)
        requires
            self.wf(),
            0 <= i < self.entries@.len(),
        ensures
            self@.contains_key(self.entries@[i].0@),
            self@[self.entries@[i].0@] == self.entries@[i].1,
            self.index_of(self.entries@[i].0@) == i,
    {
        let k = self.entries@[i].0@;
        assert(self.holds(k));
        let j = self.index_of(k);
        if j < i {
            assert(self.entries@[j].0@ != self.entries@[i].0@);
        } else if i < j {
            assert(self.entries@[i].0@ != self.entries@[j].0@);
        }
    }

    /// A map without addresses has the size zero, and the other way round.
    pub proof fn lemma_size(&self)
        requires
            self.wf(),
        ensures
            self.size() == 0 <==> self@ == Map::<Seq<u8>, V>::empty(),
    {
        if self.size() == 0 {
            assert(self@ =~= Map::<Seq<u8>, V>::empty());
        } else {
            self.lemma_index(0);
        }
    }

    /// The empty map.
    pub fn new() -> (r: AddressMap<V>)
        ensures
            r.wf(),
            r@ == Map::<Seq<u8>, V>::empty(),
            r.size() == 0,
    {
        let r = AddressMap { entries: Vec::new() };
        assert(r@ =~= Map::<Seq<u8>, V>::empty());
        r
    }

    /// The number of addresses that the map holds.
    pub fn len(&self) -> (r: usize)
        ensures
            r == self.size(),
    {
        self.entries.len()
    }

    fn find(&self, key: &H256) -> (r: Option<usize>)
        ensures
            match r {
                Some(i) => i < self.entries@.len() && self.entries@[i as int].0@ == key@,
                None => !self.holds(key@),
            },
    {
        let mut i: usize = 0;
        while i < self.entries.len()
            invariant
                i <= self.entries.len(),
                forall|j: int| 0 <= j < i ==> (#[trigger] self.entries@[j]).0@ != key@,
            decreases self.entries.len() - i,
        {
            if self.entries[i].0 == *key {
                return Some(i);
            }
            i += 1;
        }
        None
    }

    /// Whether the map holds `key`.
    pub fn contains_key(&self, key: &H256) -> (r: bool)
        requires
            self.wf(),
        ensures
            r == self@.contains_key(key@),
    {
        self.find(key).is_some()
    }

    /// The value that the map holds for `key`.
    pub fn get(&self, key: &H256) -> (r: Option<&V>)
        requires
            self.wf(),
        ensures
            match r {
                Some(value) => self@.contains_key(key@) && *value == self@[key@],
                None => !self@.contains_key(key@),
            },
    {
        match self.find(key) {
            Some(i) => {
                proof {
                    self.lemma_index(i as int);
                }
                Some(&self.entries[i].1)
            },
            None => None,
        }
    }

    /// Set `key` to `value`. Returns the value that the map held for `key`
    /// before.
    pub fn insert(&mut self, key: H256, value: V) -> (r: Option<V>)
        requires
            old(self).wf(),
        ensures
            final(self).wf(),
            final(self)@ == old(self)@.insert(key@, value),
            r == if old(self)@.contains_key(key@) {
                Some(old(self)@[key@])
            } else {
                None
            },
            final(self).size() == if old(self)@.contains_key(key@) {
                old(self).size()
            } else {
                old(self).size() + 1
            },
    {
        let found = self.find(&key);
        let ghost before = *self;
        self.entries.push((key, value));
        let r = match found {
            Some(i) => {
                proof {
                    before.lemma_index(i as int);
                }
                let previous = self.entries.swap_remove(i);
                assert(self.entries@ == before.entries@.update(i as int, (key, value)));
                Some(previous.1)
            },
            None => None,
        };
        proof {
            let after = *self;
            assert(after.wf());
            assert forall|k: Seq<u8>| after@.contains_key(k) <==> (k == key@
                || before@.contains_key(k)) by {
                if after.holds(k) {
                    let j = after.index_of(k);
                    if k != key@ {
                        assert(before.entries@[j].0@ == k);
                    }
                }
                if before.holds(k) && k != key@ {
                    let j = before.index_of(k);
                    assert(after.entries@[j].0@ == k);
                }
                if k == key@ {
                    match found {
                        Some(i) => {
                            assert(after.entries@[i as int].0@ == k);
                        },
                        None => {
                            assert(after.entries@[after.entries@.len() - 1].0@ == k);
                        },
                    }
                }
            }
            assert forall|k: Seq<u8>| after@.contains_key(k) implies after@[k] == before@.insert(
                key@,
                value,
            )[k] by {
                let j = after.index_of(k);
                after.lemma_index(j);
                if k != key@ {
                    before.lemma_index(j);
                }
            }
            assert(after@ =~= before@.insert(key@, value));
        }
        r
    }

    /// Take `key` out of the map. Returns the value that the map held for
    /// it.
    pub fn remove(&mut self, key: &H256) -> (r: Option<V>)
        requires
            old(self).wf(),
        ensures
            final(self).wf(),
            final(self)@ == old(self)@.remove(key@),
            r == if old(self)@.contains_key(key@) {
                Some(old(self)@[key@])
            } else {
                None
            },
            final(self).size() == if old(self)@.contains_key(key@) {
                old(self).size() - 1
            } else {
                old(self).size() as int
            },
    {
        let ghost before = *self;
        match self.find(key) {
            Some(i) => {
                proof {
                    before.lemma_index(i as int);
                }
                let previous = self.entries.swap_remove(i);
                proof {
                    let after = *self;
                    let last = before.entries@.len() - 1;
                    assert forall|j: int| 0 <= j < after.entries@.len() implies (
                    #[trigger] after.entries@[j]) == before.entries@[if j == i {
                        last
                    } else {
                        j
                    }] by {}
                    assert(after.wf());
                    assert forall|k: Seq<u8>| after@.contains_key(k) <==> (k != key@
                        && before@.contains_key(k)) by {
                        if after.holds(k) {
                            let j = after.index_of(k);
                            let src = if j == i {
                                last
                            } else {
                                j
                            };
                            assert(before.entries@[src].0@ == k);
                            if k == key@ {
                                before.lemma_index(src);
                            }
                        }
                        if before.holds(k) && k != key@ {
                            let j = before.index_of(k);
                            if j == last {
                                assert(after.entries@[i as int].0@ == k);
                            } else {
                                assert(after.entries@[j].0@ == k);
                            }
                        }
                    }
                    assert forall|k: Seq<u8>| after@.contains_key(k) implies after@[k]
                        == before@[k] by {
                        let j = after.index_of(k);
                        after.lemma_index(j);
                        before.lemma_index(
                            if j == i {
                                last
                            } else {
                                j
                            },
                        );
                    }
                    assert(after@ =~= before@.remove(key@));
                }
                Some(previous.1)
            },
            None => {
                assert(self@ =~= before@.remove(key@));
                None
            },
        }
    }

    /// Take one address out of the map, with its value; `None` where the
    /// map is empty.
    pub fn pop(&mut self) -> (r: Option<(H256, V)>)
        requires
            old(self).wf(),
        ensures
            final(self).wf(),
            match r {
                Some((key, value)) => {
                    &&& old(self)@.contains_key(key@)
                    &&& old(self)@[key@] == value
                    &&& final(self)@ == old(self)@.remove(key@)
                    &&& final(self).size() == old(self).size() - 1
                },
                None => old(self).size() == 0 && final(self)@ == old(self)@,
            },
    {
        let ghost before = *self;
        let r = self.entries.pop();
        proof {
            if before.entries@.len() > 0 {
                let after = *self;
                let last = before.entries@.len() - 1;
                let key = before.entries@[last].0@;
                before.lemma_index(last);
                assert forall|j: int| 0 <= j < after.entries@.len() implies (
                #[trigger] after.entries@[j]) == before.entries@[j] by {}
                assert(after.wf());
                assert forall|k: Seq<u8>| after@.contains_key(k) <==> (k != key
                    && before@.contains_key(k)) by {
                    if after.holds(k) {
                        let j = after.index_of(k);
                        assert(before.entries@[j].0@ == k);
                        if k == key {
                            before.lemma_index(j);
                        }
                    }
                    if before.holds(k) && k != key {
                        let j = before.index_of(k);
                        assert(after.entries@[j].0@ == k);
                    }
                }
                assert forall|k: Seq<u8>| after@.contains_key(k) implies after@[k]
                    == before@[k] by {
                    let j = after.index_of(k);
                    after.lemma_index(j);
                    before.lemma_index(j);
                }
                assert(after@ =~= before@.remove(key));
            }
        }
        r
    }

    /// The addresses that the map holds, each once.
    pub fn keys(&self) -> (r: Vec<H256>)
        requires
            self.wf(),
        ensures
            r@.len() == self.size(),
            forall|i: int| 0 <= i < r@.len() ==> self@.contains_key(#[trigger] r@[i]@),
            forall|k: Seq<u8>|
                self@.contains_key(k) ==> exists|i: int| 0 <= i < r@.len() && #[trigger] r@[i]@ == k,
            forall|i: int, j: int| 0 <= i < j < r@.len() ==> r@[i]@ != r@[j]@,
    {
        let mut out: Vec<H256> = Vec::new();
        let mut i: usize = 0;
        while i < self.entries.len()
            invariant
                i <= self.entries.len(),
                out@.len() == i,
                forall|j: int| 0 <= j < i ==> (#[trigger] out@[j]) == self.entries@[j].0,
            decreases self.entries.len() - i,
        {
            out.push(self.entries[i].0);
            i += 1;
        }
        proof {
            assert forall|j: int| 0 <= j < out@.len() implies self@.contains_key(
                #[trigger] out@[j]@,
            ) by {
                self.lemma_index(j);
            }
            assert forall|k: Seq<u8>| self@.contains_key(k) implies exists|j: int|
                0 <= j < out@.len() && #[trigger] out@[j]@ == k by {
                let j = self.index_of(k);
                assert(out@[j]@ == k);
            }
            assert forall|a: int, b: int| 0 <= a < b < out@.len() implies out@[a]@ != out@[b]@ by {
                assert(self.entries@[a].0@ != self.entries@[b].0@);
            }
        }
        out
    }
}

} // verus!
