//! A small map keyed by 256-bit identifiers, held as a list of entries with
//! distinct keys.
//!
//! Of the hash map of the standard library Verus knows what it holds only
//! where it knows that equal keys hash alike, which is so for the machine
//! integers; for a key type of one's own that has to be assumed, and this
//! crate assumes nothing. No integer holds 256 bits, so the entries stand
//! in a list, and `wf` says what a map would give by itself: that no key
//! stands twice.

use crate::data::WideId;
use vstd::prelude::*;

verus! {

/// A finite map from identifiers to values.
pub struct WideMap<V> {
    entries: Vec<(WideId, V)>,
}

impl<V> View for WideMap<V> {
    type V = Map<WideId, V>;

    closed spec fn view(&self) -> Map<WideId, V> {
        Map::new(
            |k: WideId| exists|i: int| 0 <= i < self.entries.len() && self.entries[i].0 == k,
            |k: WideId|
                self.entries[choose|i: int| 0 <= i < self.entries.len() && self.entries[i].0 == k].1,
        )
    }
}

impl<V> WideMap<V> {
    spec fn distinct_keys(self) -> bool {
        forall|i: int, j: int|
            0 <= i < j < self.entries.len() ==> self.entries[i].0 != self.entries[j].0
    }

    /// The map is well formed: no key stands twice in its list.
    pub closed spec fn wf(&self) -> bool {
        self.distinct_keys()
    }

    /// The entry at place `i` is what the map holds for its key.
    proof fn lemma_entry(self, i: int)
        requires
            self.distinct_keys(),
            0 <= i < self.entries.len(),
        ensures
            self@.contains_key(self.entries[i].0),
            self@[self.entries[i].0] == self.entries[i].1,
    {
        let k = self.entries[i].0;
        let c = choose|c: int| 0 <= c < self.entries.len() && self.entries[c].0 == k;
        assert(c == i);
    }

    fn find(&self, key: &WideId) -> (at: Option<usize>)
        requires
            self.wf(),
        ensures
            match at {
                Some(i) => i < self.entries.len() && self.entries[i as int].0 == *key
                    && self@.contains_key(*key) && self@[*key] == self.entries[i as int].1,
                None => !self@.contains_key(*key),
            },
    {
        let mut i: usize = 0;
        while i < self.entries.len()
            invariant
                self.wf(),
                i <= self.entries.len(),
                forall|j: int| 0 <= j < i ==> self.entries[j].0 != *key,
            decreases self.entries.len() - i,
        {
            if self.entries[i].0 == *key {
                proof {
                    self.lemma_entry(i as int);
                }
                return Some(i);
            }
            i += 1;
        }
        None
    }

    /// The empty map.
    pub fn new() -> (map: Self)
        ensures
            map.wf(),
            map@ == Map::<WideId, V>::empty(),
    {
        let map = WideMap { entries: Vec::new() };
        assert(map@ =~= Map::<WideId, V>::empty());
        map
    }

    /// Whether the map holds a value for `key`.
    pub fn contains_key(&self, key: &WideId) -> (yes: bool)
        requires
            self.wf(),
        ensures
            yes == self@.contains_key(*key),
    {
        self.find(key).is_some()
    }

    /// The value held for `key`.
    pub fn get(&self, key: &WideId) -> (value: Option<&V>)
        requires
            self.wf(),
        ensures
            match value {
                Some(v) => self@.contains_key(*key) && *v == self@[*key],
                None => !self@.contains_key(*key),
            },
    {
        match self.find(key) {
            Some(i) => Some(&self.entries[i].1),
            None => None,
        }
    }

    /// Holds `value` for `key` from now on, and hands back what was held
    /// for it before.
    pub fn insert(&mut self, key: WideId, value: V) -> (before: Option<V>)
        requires
            old(self).wf(),
        ensures
            final(self).wf(),
            final(self)@ == old(self)@.insert(key, value),
            before == if old(self)@.contains_key(key) {
                Some(old(self)@[key])
            } else {
                None
            },
    {
        let ghost start = *self;
        let found = self.find(&key);
        let ghost gap: int = match found {
            Some(i) => i as int,
            None => start.entries.len() as int,
        };
        let before = match found {
            Some(i) => {
                let removed = self.entries.remove(i);
                Some(removed.1)
            },
            None => None,
        };
        let ghost mid = self.entries@;
        assert forall|a: int| 0 <= a < mid.len() implies #[trigger] mid[a] == start.entries[if a
            < gap {
            a
        } else {
            a + 1
        }] by {}
        self.entries.push((key, value));
        proof {
            let end = *self;
            assert forall|a: int| 0 <= a < mid.len() implies (#[trigger] end.entries[a]).0
                != key by {
                let j = if a < gap { a } else { a + 1 };
                assert(end.entries[a] == start.entries[j]);
                if found is None {
                    start.lemma_entry(j);
                }
            }
            assert(end.distinct_keys()) by {
                assert forall|a: int, b: int| 0 <= a < b < end.entries.len() implies end.entries[a].0
                    != end.entries[b].0 by {
                    let ja = if a < gap { a } else { a + 1 };
                    if b < mid.len() {
                        let jb = if b < gap { b } else { b + 1 };
                        assert(end.entries[a] == start.entries[ja]);
                        assert(end.entries[b] == start.entries[jb]);
                    } else {
                        assert(end.entries[a].0 != key);
                    }
                }
            }
            end.lemma_entry(mid.len() as int);
            assert forall|k: WideId| end@.contains_key(k) <==> (k == key || start@.contains_key(
                k,
            )) by {
                if end@.contains_key(k) && k != key {
                    let a = choose|a: int| 0 <= a < end.entries.len() && end.entries[a].0 == k;
                    let j = if a < gap { a } else { a + 1 };
                    assert(end.entries[a] == start.entries[j]);
                    start.lemma_entry(j);
                }
                if start@.contains_key(k) && k != key {
                    let j = choose|j: int| 0 <= j < start.entries.len() && start.entries[j].0 == k;
                    let a = if j < gap { j } else { j - 1 };
                    assert(end.entries[a] == start.entries[j]);
                    end.lemma_entry(a);
                }
            }
            assert forall|k: WideId| end@.contains_key(k) && k != key implies end@[k]
                == start@[k] by {
                let a = choose|a: int| 0 <= a < end.entries.len() && end.entries[a].0 == k;
                end.lemma_entry(a);
                let j = if a < gap { a } else { a + 1 };
                assert(end.entries[a] == start.entries[j]);
                start.lemma_entry(j);
            }
            assert(end@ =~= start@.insert(key, value));
        }
        before
    }

    /// Holds nothing for `key` from now on, and hands back what was held
    /// for it.
    pub fn remove(&mut self, key: &WideId) -> (before: Option<V>)
        requires
            old(self).wf(),
        ensures
            final(self).wf(),
            final(self)@ == old(self)@.remove(*key),
            before == if old(self)@.contains_key(*key) {
                Some(old(self)@[*key])
            } else {
                None
            },
    {
        let ghost start = *self;
        match self.find(key) {
            Some(i) => {
                let removed = self.entries.remove(i);
                proof {
                    let end = *self;
                    assert(end.distinct_keys());
                    assert forall|k: WideId| end@.contains_key(k) <==> start@.remove(
                        *key,
                    ).contains_key(k) by {
                        if end@.contains_key(k) {
                            let a = choose|a: int|
                                0 <= a < end.entries.len() && end.entries[a].0 == k;
                            let j = if a < i { a } else { a + 1 };
                            assert(start.entries[j] == end.entries[a]);
                            start.lemma_entry(j);
                        }
                        if start@.contains_key(k) && k != *key {
                            let j = choose|j: int|
                                0 <= j < start.entries.len() && start.entries[j].0 == k;
                            let a = if j < i { j } else { j - 1 };
                            assert(end.entries[a] == start.entries[j]);
                            end.lemma_entry(a);
                        }
                    }
                    assert forall|k: WideId| end@.contains_key(k) implies end@[k] == start@.remove(
                        *key,
                    )[k] by {
                        let a = choose|a: int| 0 <= a < end.entries.len() && end.entries[a].0 == k;
                        end.lemma_entry(a);
                        let j = if a < i { a } else { a + 1 };
                        assert(start.entries[j] == end.entries[a]);
                        start.lemma_entry(j);
                    }
                    assert(end@ =~= start@.remove(*key));
                }
                Some(removed.1)
            },
            None => {
                assert(self@ =~= start@.remove(*key));
                None
            },
        }
    }
}

} // verus!
