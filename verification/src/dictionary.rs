//! A map from text keys to values that keeps the order in which the keys
//! came.

use vstd::prelude::*;
use crate::text::str_eq;

verus! {

/// A map keyed by text. No key stands twice; the keys keep the order of
/// their first insertion.
#[derive(Debug)]
pub struct Dictionary<V> {
    entries: Vec<Entry<V>>,
}

#[derive(Debug)]
struct Entry<V> {
    key: String,
    value: V,
}

spec fn distinct_keys<V>(entries: Seq<Entry<V>>) -> bool {
    forall|i: int, j: int|
        0 <= i < j < entries.len() ==> (#[trigger] entries[i]).key@ != (#[trigger] entries[j]).key@
}

impl<V> Dictionary<V> {
    #[verifier::type_invariant]
    spec fn inv(&self) -> bool {
        distinct_keys(self.entries@)
    }

    /// The keys in the order of their insertion.
    pub closed spec fn keys(&self) -> Seq<Seq<char>> {
        Seq::new(self.entries.len() as nat, |i: int| self.entries[i].key@)
    }

    /// The values, each at the position of its key.
    pub closed spec fn values(&self) -> Seq<V> {
        Seq::new(self.entries.len() as nat, |i: int| self.entries[i].value)
    }

    /// The position of `key` among the keys.
    pub open spec fn position(&self, key: Seq<char>) -> int {
        choose|i: int| 0 <= i < self.keys().len() && self.keys()[i] == key
    }

    /// The dictionary as a map.
    pub open spec fn view(&self) -> Map<Seq<char>, V> {
        Map::new(|k: Seq<char>| self.keys().contains(k), |k: Seq<char>| self.values()[self.position(k)])
    }

    /// An empty dictionary.
    pub fn new() -> (r: Self)
        ensures
            r.keys() == Seq::<Seq<char>>::empty(),
            r.values() == Seq::<V>::empty(),
            r@ == Map::<Seq<char>, V>::empty(),
    {
        let r = Dictionary { entries: Vec::new() };
        assert(r.keys() =~= Seq::<Seq<char>>::empty());
        assert(r.values() =~= Seq::<V>::empty());
        assert(r@ =~= Map::<Seq<char>, V>::empty());
        r
    }

    /// The number of entries.
    pub fn len(&self) -> (n: usize)
        ensures
            n == self.keys().len(),
            n == self.values().len(),
            self.keys().no_duplicates(),
    {
        proof {
            use_type_invariant(self);
            assert forall|i: int, j: int|
                0 <= i < self.keys().len() && 0 <= j < self.keys().len() && i != j implies self.keys()[i]
                != self.keys()[j] by {
                if i < j {
                    assert(self.entries[i].key@ != self.entries[j].key@);
                } else {
                    assert(self.entries[j].key@ != self.entries[i].key@);
                }
            }
        }
        self.entries.len()
    }

    /// The position of `key` among the keys, if it is there.
    pub fn position_of(&self, key: &str) -> (r: Option<usize>)
        ensures
            r.is_some() == self@.contains_key(key@),
            r matches Some(i) ==> i == self.position(key@) && i < self.keys().len() && i
                < self.values().len() && self.keys()[i as int] == key@,
    {
        let r = self.find(key);
        proof {
            if let Some(i) = r {
                assert(self.keys()[i as int] == self.entries[i as int].key@);
            }
        }
        r
    }

    /// The position of `key`, if it is there.
    fn find(&self, key: &str) -> (r: Option<usize>)
        ensures
            r matches Some(i) ==> i < self.entries.len() && self.entries[i as int].key@ == key@ && i
                == self.position(key@),
            r.is_none() ==> forall|i: int|
                0 <= i < self.entries.len() ==> (#[trigger] self.entries[i]).key@ != key@,
            r.is_some() == self.keys().contains(key@),
    {
        proof {
            use_type_invariant(self);
        }
        let mut i: usize = 0;
        while i < self.entries.len()
            invariant
                i <= self.entries.len(),
                distinct_keys(self.entries@),
                forall|j: int| 0 <= j < i ==> (#[trigger] self.entries[j]).key@ != key@,
            decreases self.entries.len() - i,
        {
            if str_eq(self.entries[i].key.as_str(), key) {
                proof {
                    assert(self.keys()[i as int] == key@);
                    let p = self.position(key@);
                    assert(self.keys()[p] == key@);
                    assert(self.entries[p].key@ == key@);
                }
                return Some(i);
            }
            i += 1;
        }
        proof {
            if self.keys().contains(key@) {
                let j = choose|j: int| 0 <= j < self.keys().len() && self.keys()[j] == key@;
                assert(self.entries[j].key@ == key@);
            }
        }
        None
    }

    /// Whether `key` has an entry.
    pub fn contains_key(&self, key: &str) -> (r: bool)
        ensures
            r == self@.contains_key(key@),
    {
        self.find(key).is_some()
    }

    /// The value under `key`.
    pub fn get(&self, key: &str) -> (r: Option<&V>)
        ensures
            r.is_some() == self@.contains_key(key@),
            r matches Some(v) ==> *v == self@[key@],
    {
        match self.find(key) {
            Some(i) => Some(&self.entries[i].value),
            None => None,
        }
    }

    /// The key at position `i`.
    pub fn key_at(&self, i: usize) -> (key: &String)
        requires
            i < self.keys().len(),
        ensures
            key@ == self.keys()[i as int],
            self@.contains_key(key@),
            self.position(key@) == i,
    {
        proof {
            use_type_invariant(self);
            self.lemma_position(i as int);
        }
        &self.entries[i].key
    }

    /// The value at position `i`: the one under the key at that position.
    pub fn value_at(&self, i: usize) -> (value: &V)
        requires
            i < self.values().len(),
        ensures
            *value == self.values()[i as int],
            i < self.keys().len(),
            *value == self@[self.keys()[i as int]],
    {
        proof {
            use_type_invariant(self);
            self.lemma_position(i as int);
        }
        &self.entries[i].value
    }

    /// With distinct keys, the position of the key at `i` is `i`.
    proof fn lemma_position(&self, i: int)
        requires
            distinct_keys(self.entries@),
            0 <= i < self.entries.len(),
        ensures
            self.keys()[i] == self.entries[i].key@,
            self.values()[i] == self.entries[i].value,
            self.keys().contains(self.entries[i].key@),
            self.position(self.entries[i].key@) == i,
    {
        assert(self.keys()[i] == self.entries[i].key@);
        let p = self.position(self.entries[i].key@);
        assert(self.keys()[p] == self.entries[i].key@);
        assert(self.entries[p].key@ == self.entries[i].key@);
    }

    /// The place at which a new key goes that is put at `index`: `index`,
    /// or the end where `index` lies beyond it.
    pub open spec fn place(&self, index: usize) -> int {
        if index <= self.keys().len() {
            index as int
        } else {
            self.keys().len() as int
        }
    }

    /// Puts `value` under `key` and hands back what stood there before. A
    /// new key goes to the end; a known key keeps its place.
    pub fn insert(&mut self, key: String, value: V) -> (previous: Option<V>)
        ensures
            final(self)@ == old(self)@.insert(key@, value),
            previous == (if old(self)@.contains_key(key@) {
                Some(old(self)@[key@])
            } else {
                None
            }),
            final(self).keys() == (if old(self)@.contains_key(key@) {
                old(self).keys()
            } else {
                old(self).keys().push(key@)
            }),
            final(self).values() == (if old(self)@.contains_key(key@) {
                old(self).values().update(old(self).position(key@), value)
            } else {
                old(self).values().push(value)
            }),
    {
        let end = self.len();
        let ghost added = key@;
        let previous = self.insert_at(end, key, value);
        proof {
            assert(old(self).keys().insert(end as int, added) =~= old(self).keys().push(added));
            assert(old(self).values().insert(end as int, value) =~= old(self).values().push(value));
        }
        previous
    }

    /// Puts `value` under `key` and hands back what stood there before. A
    /// new key goes to position `index`, or to the end if there are fewer
    /// keys; a known key keeps its place.
    pub fn insert_at(&mut self, index: usize, key: String, value: V) -> (previous: Option<V>)
        ensures
            final(self)@ == old(self)@.insert(key@, value),
            previous == (if old(self)@.contains_key(key@) {
                Some(old(self)@[key@])
            } else {
                None
            }),
            final(self).keys() == (if old(self)@.contains_key(key@) {
                old(self).keys()
            } else {
                old(self).keys().insert(old(self).place(index), key@)
            }),
            final(self).values() == (if old(self)@.contains_key(key@) {
                old(self).values().update(old(self).position(key@), value)
            } else {
                old(self).values().insert(old(self).place(index), value)
            }),
    {
        proof {
            use_type_invariant(&*self);
        }
        let found = self.find(key.as_str());
        let ghost added = key@;
        let ghost at = old(self).place(index);
        let mut entries: Vec<Entry<V>> = Vec::new();
        core::mem::swap(&mut self.entries, &mut entries);
        let previous = match found {
            Some(i) => {
                let old_entry = entries.remove(i);
                entries.insert(i, Entry { key, value });
                Some(old_entry.value)
            },
            None => {
                let position = if index <= entries.len() {
                    index
                } else {
                    entries.len()
                };
                entries.insert(position, Entry { key, value });
                None
            },
        };
        proof {
            assert(distinct_keys(entries@));
        }
        core::mem::swap(&mut self.entries, &mut entries);
        proof {
            let before = *old(self);
            let after = *self;
            if found.is_some() {
                let i = found.unwrap() as int;
                assert(after.keys() =~= before.keys());
                assert(after.values() =~= before.values().update(i, value));
            } else {
                assert(after.keys() =~= before.keys().insert(at, added));
                assert(after.values() =~= before.values().insert(at, value));
            }
            assert forall|k: Seq<char>|
                after.keys().contains(k) <==> before@.insert(added, value).contains_key(k) by {
                if after.keys().contains(k) {
                    let p = choose|p: int| 0 <= p < after.keys().len() && after.keys()[p] == k;
                    if found.is_some() {
                        assert(before.keys()[p] == k);
                    } else if p < at {
                        assert(before.keys()[p] == k);
                    } else if p > at {
                        assert(before.keys()[p - 1] == k);
                    }
                }
                if before.keys().contains(k) {
                    let p = choose|p: int| 0 <= p < before.keys().len() && before.keys()[p] == k;
                    if found.is_some() || p < at {
                        assert(after.keys()[p] == k);
                    } else {
                        assert(after.keys()[p + 1] == k);
                    }
                }
                if k == added && found.is_none() {
                    assert(after.keys()[at] == k);
                }
            }
            assert forall|k: Seq<char>| after.keys().contains(k) implies #[trigger] after@[k]
                == before@.insert(added, value)[k] by {
                let p = after.position(k);
                assert(after.keys()[p] == k);
                after.lemma_position(p);
                if found.is_some() {
                    before.lemma_position(p);
                    after.lemma_position(found.unwrap() as int);
                } else if p < at {
                    before.lemma_position(p);
                } else if p > at {
                    before.lemma_position(p - 1);
                }
            }
            assert(after@ =~= before@.insert(added, value));
        }
        previous
    }

    /// Takes the entry under `key` out and hands its value back. The other
    /// keys keep their order.
    pub fn remove(&mut self, key: &str) -> (removed: Option<V>)
        ensures
            final(self)@ == old(self)@.remove(key@),
            removed == (if old(self)@.contains_key(key@) {
                Some(old(self)@[key@])
            } else {
                None
            }),
            final(self).keys() == (if old(self)@.contains_key(key@) {
                old(self).keys().remove(old(self).position(key@))
            } else {
                old(self).keys()
            }),
            final(self).values() == (if old(self)@.contains_key(key@) {
                old(self).values().remove(old(self).position(key@))
            } else {
                old(self).values()
            }),
    {
        proof {
            use_type_invariant(&*self);
        }
        match self.find(key) {
            Some(i) => {
                let mut entries: Vec<Entry<V>> = Vec::new();
                core::mem::swap(&mut self.entries, &mut entries);
                let entry = entries.remove(i);
                proof {
                    assert(distinct_keys(entries@));
                }
                core::mem::swap(&mut self.entries, &mut entries);
                proof {
                    let before = *old(self);
                    let after = *self;
                    assert(after.keys() =~= before.keys().remove(i as int));
                    assert(after.values() =~= before.values().remove(i as int));
                    assert forall|k: Seq<char>|
                        after.keys().contains(k) <==> before@.remove(key@).contains_key(k) by {
                        if after.keys().contains(k) {
                            let p = choose|p: int| 0 <= p < after.keys().len() && after.keys()[p] == k;
                            if p < i {
                                before.lemma_position(p);
                            } else {
                                before.lemma_position(p + 1);
                            }
                            before.lemma_position(i as int);
                        }
                        if before.keys().contains(k) && k != key@ {
                            let p = choose|p: int|
                                0 <= p < before.keys().len() && before.keys()[p] == k;
                            if p < i {
                                assert(after.keys()[p] == k);
                            } else {
                                assert(after.keys()[p - 1] == k);
                            }
                        }
                    }
                    assert forall|k: Seq<char>| after.keys().contains(k) implies #[trigger] after@[k]
                        == before@.remove(key@)[k] by {
                        let p = after.position(k);
                        assert(after.keys()[p] == k);
                        after.lemma_position(p);
                        if p < i {
                            before.lemma_position(p);
                        } else {
                            before.lemma_position(p + 1);
                        }
                    }
                    assert(after@ =~= before@.remove(key@));
                }
                Some(entry.value)
            },
            None => {
                proof {
                    assert(self@ =~= old(self)@.remove(key@));
                }
                None
            },
        }
    }
}

impl<V: Clone> Clone for Dictionary<V> {
    /// A dictionary with the same keys in the same order, each with a clone
    /// of its value.
    fn clone(&self) -> (r: Self)
        ensures
            r.keys() == self.keys(),
    {
        proof {
            use_type_invariant(self);
        }
        let mut entries: Vec<Entry<V>> = Vec::new();
        let mut i: usize = 0;
        while i < self.entries.len()
            invariant
                i <= self.entries.len(),
                entries.len() == i,
                forall|j: int| 0 <= j < i ==> (#[trigger] entries[j]).key@ == self.entries[j].key@,
            decreases self.entries.len() - i,
        {
            entries.push(Entry { key: self.entries[i].key.clone(), value: self.entries[i].value.clone() });
            i += 1;
        }
        let r = Dictionary { entries };
        assert(r.keys() =~= self.keys());
        r
    }
}

} // verus!
