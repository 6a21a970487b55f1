//! A map keyed by strings, held as a vector of entries with distinct keys.
use vstd::prelude::*;

verus! {

/// Entries `(key, value)`, no two with the same key.
pub struct Table<V> {
    entries: Vec<(String, V)>,
}

impl<V> View for Table<V> {
    type V = Map<Seq<char>, V>;

    closed spec fn view(&self) -> Map<Seq<char>, V> {
        Map::new(
            |k: Seq<char>| exists|i: int| 0 <= i < self.entries@.len() && self.entries@[i].0@ == k,
            |k: Seq<char>|
                self.entries@[choose|i: int|
                    0 <= i < self.entries@.len() && self.entries@[i].0@ == k].1,
        )
    }
}

impl<V> Table<V> {
    /// No two entries share a key.
    pub closed spec fn wf(&self) -> bool {
        forall|i: int, j: int|
            0 <= i < self.entries@.len() && 0 <= j < self.entries@.len() && i != j
                ==> self.entries@[i].0@ != self.entries@[j].0@
    }

    /// The entry at `i` is what the map holds under its key.
    proof fn lemma_entry(&self, i: int)
        requires
            self.wf(),
            0 <= i < self.entries@.len(),
        ensures
            self@.contains_key(self.entries@[i].0@),
            self@[self.entries@[i].0@] == self.entries@[i].1,
    {
        let k = self.entries@[i].0@;
        assert(exists|j: int| 0 <= j < self.entries@.len() && self.entries@[j].0@ == k);
    }

    /// The empty table.
    pub fn new() -> (r: Table<V>)
        ensures
            r.wf(),
            r@ == Map::<Seq<char>, V>::empty(),
    {
        let r = Table { entries: Vec::new() };
        assert(r@ =~= Map::<Seq<char>, V>::empty());
        r
    }

    /// The position of the entry under `key`, if there is one.
    fn find(&self, key: &String) -> (r: Option<usize>)
        requires
            self.wf(),
        ensures
            r is Some <==> self@.contains_key(key@),
            r is Some ==> r->0 < self.entries@.len() && self.entries@[r->0 as int].0@ == key@,
    {
        let mut i: usize = 0;
        while i < self.entries.len()
            invariant
                i <= self.entries@.len(),
                forall|j: int| 0 <= j < i ==> self.entries@[j].0@ != key@,
            decreases self.entries@.len() - i,
        {
            if self.entries[i].0 == *key {
                return Some(i);
            }
            i = i + 1;
        }
        None
    }

    /// Whether a value is held under `key`.
    pub fn contains(&self, key: &String) -> (r: bool)
        requires
            self.wf(),
        ensures
            r == self@.contains_key(key@),
    {
        self.find(key).is_some()
    }

    /// The value held under `key`, if any.
    pub fn get(&self, key: &String) -> (r: Option<&V>)
        requires
            self.wf(),
        ensures
            r is Some <==> self@.contains_key(key@),
            r is Some ==> *r->0 == self@[key@],
    {
        match self.find(key) {
            Some(i) => {
                proof {
                    self.lemma_entry(i as int);
                }
                Some(&self.entries[i].1)
            },
            None => None,
        }
    }

    /// Holds `value` under `key`, replacing what was held there.
    pub fn insert(&mut self, key: String, value: V)
        requires
            old(self).wf(),
        ensures
            final(self).wf(),
            final(self)@ == old(self)@.insert(key@, value),
    {
        let ghost k = key@;
        let ghost old_entries = self.entries@;
        match self.find(&key) {
            Some(i) => {
                self.entries.set(i, (key, value));
                proof {
                    assert forall|k2: Seq<char>| #[trigger] self@.contains_key(k2) == old(self)@.insert(k, value).contains_key(k2) by {
                        if old(self)@.contains_key(k2) && k2 != k {
                            let j = choose|j: int| 0 <= j < old_entries.len() && old_entries[j].0@ == k2;
                            assert(self.entries@[j].0@ == k2);
                        }
                        if self@.contains_key(k2) {
                            let j = choose|j: int| 0 <= j < self.entries@.len() && self.entries@[j].0@ == k2;
                            if j != i {
                                assert(old_entries[j].0@ == k2);
                            }
                        }
                        assert(self.entries@[i as int].0@ == k);
                    }
                    assert forall|k2: Seq<char>| #[trigger] self@.contains_key(k2) implies self@[k2] == old(self)@.insert(k, value)[k2] by {
                        let j = choose|j: int| 0 <= j < self.entries@.len() && self.entries@[j].0@ == k2;
                        self.lemma_entry(j);
                        if j != i {
                            old(self).lemma_entry(j);
                        }
                    }
                    assert(self@ =~= old(self)@.insert(k, value));
                }
            },
            None => {
                self.entries.push((key, value));
                proof {
                    let n = old_entries.len() as int;
                    assert forall|k2: Seq<char>| #[trigger] self@.contains_key(k2) == old(self)@.insert(k, value).contains_key(k2) by {
                        if old(self)@.contains_key(k2) {
                            let j = choose|j: int| 0 <= j < old_entries.len() && old_entries[j].0@ == k2;
                            assert(self.entries@[j].0@ == k2);
                        }
                        if self@.contains_key(k2) {
                            let j = choose|j: int| 0 <= j < self.entries@.len() && self.entries@[j].0@ == k2;
                            if j != n {
                                assert(old_entries[j].0@ == k2);
                            }
                        }
                        assert(self.entries@[n].0@ == k);
                    }
                    assert forall|k2: Seq<char>| #[trigger] self@.contains_key(k2) implies self@[k2] == old(self)@.insert(k, value)[k2] by {
                        let j = choose|j: int| 0 <= j < self.entries@.len() && self.entries@[j].0@ == k2;
                        self.lemma_entry(j);
                        if j != n {
                            old(self).lemma_entry(j);
                        }
                    }
                    assert(self@ =~= old(self)@.insert(k, value));
                }
            },
        }
    }

    /// Takes out the value held under `key`, if any.
    pub fn remove(&mut self, key: &String) -> (r: Option<V>)
        requires
            old(self).wf(),
        ensures
            final(self).wf(),
            final(self)@ == old(self)@.remove(key@),
            r is Some <==> old(self)@.contains_key(key@),
            r is Some ==> r->0 == old(self)@[key@],
    {
        let ghost k = key@;
        let ghost old_entries = self.entries@;
        match self.find(key) {
            Some(i) => {
                proof {
                    self.lemma_entry(i as int);
                }
                let (_, v) = self.entries.remove(i);
                proof {
                    assert(forall|j: int| 0 <= j < self.entries@.len() ==>
                        #[trigger] self.entries@[j] == if j < i { old_entries[j] } else { old_entries[j + 1] });
                    assert forall|k2: Seq<char>| #[trigger] self@.contains_key(k2) == old(self)@.remove(k).contains_key(k2) by {
                        if old(self)@.contains_key(k2) && k2 != k {
                            let j = choose|j: int| 0 <= j < old_entries.len() && old_entries[j].0@ == k2;
                            if j < i {
                                assert(self.entries@[j].0@ == k2);
                            } else {
                                assert(self.entries@[j - 1].0@ == k2);
                            }
                        }
                        if self@.contains_key(k2) {
                            let j = choose|j: int| 0 <= j < self.entries@.len() && self.entries@[j].0@ == k2;
                            if j < i {
                                assert(old_entries[j].0@ == k2);
                            } else {
                                assert(old_entries[j + 1].0@ == k2);
                            }
                        }
                    }
                    assert forall|k2: Seq<char>| #[trigger] self@.contains_key(k2) implies self@[k2] == old(self)@.remove(k)[k2] by {
                        let j = choose|j: int| 0 <= j < self.entries@.len() && self.entries@[j].0@ == k2;
                        self.lemma_entry(j);
                        if j < i {
                            old(self).lemma_entry(j);
                        } else {
                            old(self).lemma_entry(j + 1);
                        }
                    }
                    assert(self@ =~= old(self)@.remove(k));
                }
                Some(v)
            },
            None => {
                assert(self@ =~= old(self)@.remove(k));
                None
            },
        }
    }
}

} // verus!
