use crate::value::{AttrModel, AttrValue};
use vstd::prelude::*;

verus! {

/// The attributes of a widget: a finite map from attribute key to value.
///
/// The entries are kept in the order in which their keys first came in, and
/// no key is held twice.
#[derive(Debug)]
pub struct AttrMap {
    entries: Vec<(String, AttrValue)>,
}

impl AttrMap {
    #[verifier::type_invariant]
    spec fn distinct_keys(&self) -> bool {
        forall|i: int, j: int|
            0 <= i < j < self.entries.len() ==> self.entries[i].0@ != self.entries[j].0@
    }

    /// Whether the entry at `at` has the key `key`.
    spec fn holds(&self, key: Seq<char>, at: int) -> bool {
        0 <= at < self.entries.len() && self.entries[at].0@ == key
    }

    /// The place of the entry with the key `key`.
    spec fn place(&self, key: Seq<char>) -> int {
        choose|at: int| self.holds(key, at)
    }

    /// A map without entries.
    pub fn new() -> (attrs: Self)
        ensures
            attrs@ == Map::<Seq<char>, AttrModel>::empty(),
    {
        let attrs = AttrMap { entries: Vec::new() };
        assert(attrs@ =~= Map::<Seq<char>, AttrModel>::empty());
        attrs
    }

    /// The number of entries.
    pub fn len(&self) -> (count: usize)
        ensures
            count == self@.len(),
            self@.dom().finite(),
    {
        proof {
            use_type_invariant(self);
            self.lemma_len();
        }
        self.entries.len()
    }

    proof fn lemma_len(&self)
        requires
            self.distinct_keys(),
        ensures
            self@.dom().finite(),
            self@.len() == self.entries.len(),
    {
        let keys = Seq::new(self.entries.len() as nat, |i: int| self.entries[i].0@);
        assert(keys.no_duplicates());
        keys.unique_seq_to_set();
        assert(keys.to_set() =~= self@.dom()) by {
            assert forall|key: Seq<char>| keys.to_set().contains(key) implies self@.dom().contains(
                key,
            ) by {
                let at = choose|at: int| 0 <= at < keys.len() && keys[at] == key;
                assert(self.holds(key, at));
            }
            assert forall|key: Seq<char>| self@.dom().contains(key) implies keys.to_set().contains(
                key,
            ) by {
                let at = self.place(key);
                assert(self.holds(key, at));
                assert(keys[at] == key);
            }
        }
    }

    /// Sets the value under `key`, in place of the value that was there.
    pub fn insert(&mut self, key: String, value: AttrValue)
        ensures
            final(self)@ == old(self)@.insert(key@, value@),
    {
        proof {
            use_type_invariant(&*self);
        }
        let ghost before = *self;
        let mut entries: Vec<(String, AttrValue)> = Vec::new();
        std::mem::swap(&mut self.entries, &mut entries);
        let mut at: usize = 0;
        while at < entries.len() && !(entries[at].0 == key)
            invariant
                at <= entries.len(),
                forall|earlier: int| 0 <= earlier < at ==> entries[earlier].0@ != key@,
            decreases entries.len() - at,
        {
            at += 1;
        }
        if at < entries.len() {
            entries.set(at, (key, value));
        } else {
            entries.push((key, value));
        }
        self.entries = entries;
        proof {
            assert forall|k: Seq<char>|
                self@.dom().contains(k) == before@.insert(key@, value@).dom().contains(k) by {
                if self@.dom().contains(k) {
                    let p = self.place(k);
                    assert(self.holds(k, p));
                    if k != key@ {
                        assert(before.holds(k, p));
                    }
                }
                if before@.dom().contains(k) {
                    let p = before.place(k);
                    assert(before.holds(k, p));
                    if k != key@ {
                        assert(self.holds(k, p));
                    }
                }
                if k == key@ {
                    assert(self.holds(k, at as int));
                }
            }
            assert forall|k: Seq<char>| self@.dom().contains(k) implies self@[k] == before@.insert(
                key@,
                value@,
            )[k] by {
                let p = self.place(k);
                assert(self.holds(k, p));
                if k != key@ {
                    let q = before.place(k);
                    assert(before.holds(k, p));
                    assert(before.holds(k, q));
                } else {
                    assert(self.holds(k, at as int));
                }
            }
            assert(self@ =~= before@.insert(key@, value@));
        }
    }

    /// The value under `key`, if there is one.
    pub fn get(&self, key: &str) -> (found: Option<&AttrValue>)
        ensures
            match found {
                Some(value) => self@.contains_key(key@) && value@ == self@[key@],
                None => !self@.contains_key(key@),
            },
    {
        proof {
            use_type_invariant(self);
        }
        let wanted = key.to_owned();
        let mut at: usize = 0;
        while at < self.entries.len()
            invariant
                at <= self.entries.len(),
                wanted@ == key@,
                self.distinct_keys(),
                forall|before: int| 0 <= before < at ==> self.entries[before].0@ != key@,
            decreases self.entries.len() - at,
        {
            if self.entries[at].0 == wanted {
                proof {
                    self.lemma_entry(at as int);
                }
                return Some(&self.entries[at].1);
            }
            at += 1;
        }
        proof {
            if self@.contains_key(key@) {
                assert(self.holds(key@, self.place(key@)));
            }
        }
        None
    }

    /// The entries, each key once, in the order in which the keys came in.
    pub fn entries(&self) -> (pairs: &Vec<(String, AttrValue)>)
        ensures
            pairs.len() == self@.len(),
            forall|i: int|
                0 <= i < pairs.len() ==> self@.contains_key(#[trigger] pairs[i].0@) && self@[pairs[i].0@]
                    == pairs[i].1@,
            forall|i: int, j: int| 0 <= i < j < pairs.len() ==> pairs[i].0@ != pairs[j].0@,
    {
        proof {
            use_type_invariant(self);
            self.lemma_len();
            assert forall|i: int| 0 <= i < self.entries.len() implies self@.contains_key(
                #[trigger] self.entries[i].0@,
            ) && self@[self.entries[i].0@] == self.entries[i].1@ by {
                self.lemma_entry(i);
            }
        }
        &self.entries
    }

    /// Whether every entry of this map is an entry of `other`.
    fn is_within(&self, other: &AttrMap) -> (within: bool)
        ensures
            within == self@.submap_of(other@),
    {
        proof {
            use_type_invariant(self);
        }
        let mut at: usize = 0;
        while at < self.entries.len()
            invariant
                at <= self.entries.len(),
                self.distinct_keys(),
                forall|earlier: int|
                    0 <= earlier < at ==> other@.contains_key(self.entries[earlier].0@)
                        && other@[self.entries[earlier].0@] == self.entries[earlier].1@,
            decreases self.entries.len() - at,
        {
            proof {
                self.lemma_entry(at as int);
            }
            let same = match other.get(self.entries[at].0.as_str()) {
                Some(value) => *value == self.entries[at].1,
                None => false,
            };
            if !same {
                return false;
            }
            at += 1;
        }
        proof {
            assert forall|key: Seq<char>| self@.dom().contains(key) implies other@.dom().contains(
                key,
            ) && self@[key] == other@[key] by {
                let p = self.place(key);
                assert(self.holds(key, p));
                self.lemma_entry(p);
            }
        }
        true
    }

    /// The entry at `at` is an entry of the map.
    proof fn lemma_entry(&self, at: int)
        requires
            self.distinct_keys(),
            0 <= at < self.entries.len(),
        ensures
            self@.contains_key(self.entries[at].0@),
            self@[self.entries[at].0@] == self.entries[at].1@,
    {
        let key = self.entries[at].0@;
        assert(self.holds(key, at));
        assert(self.holds(key, self.place(key)));
    }
}

impl Clone for AttrMap {
    fn clone(&self) -> (copy: Self)
        ensures
            copy@ == self@,
    {
        proof {
            use_type_invariant(self);
        }
        let mut entries: Vec<(String, AttrValue)> = Vec::new();
        let mut at: usize = 0;
        while at < self.entries.len()
            invariant
                at <= self.entries.len(),
                entries.len() == at,
                forall|i: int|
                    0 <= i < at ==> entries[i].0@ == self.entries[i].0@ && entries[i].1@
                        == self.entries[i].1@,
            decreases self.entries.len() - at,
        {
            entries.push((self.entries[at].0.clone(), self.entries[at].1.clone()));
            at += 1;
        }
        let copy = AttrMap { entries };
        proof {
            assert forall|key: Seq<char>| copy@.dom().contains(key) == self@.dom().contains(
                key,
            ) by {
                if copy@.dom().contains(key) {
                    assert(self.holds(key, copy.place(key)));
                }
                if self@.dom().contains(key) {
                    assert(copy.holds(key, self.place(key)));
                }
            }
            assert forall|key: Seq<char>| copy@.dom().contains(key) implies copy@[key]
                == self@[key] by {
                let p = copy.place(key);
                assert(copy.holds(key, p));
                self.lemma_entry(p);
            }
            assert(copy@ =~= self@);
        }
        copy
    }
}

impl Default for AttrMap {
    fn default() -> (attrs: Self)
        ensures
            attrs@ == Map::<Seq<char>, AttrModel>::empty(),
    {
        AttrMap::new()
    }
}

impl PartialEq for AttrMap {
    fn eq(&self, other: &Self) -> (equal: bool) {
        let equal = self.is_within(other) && other.is_within(self);
        proof {
            if equal {
                assert(self@ =~= other@);
            }
        }
        equal
    }
}

impl vstd::std_specs::cmp::PartialEqSpecImpl for AttrMap {
    open spec fn obeys_eq_spec() -> bool {
        true
    }

    open spec fn eq_spec(&self, other: &Self) -> bool {
        self@ == other@
    }
}

impl View for AttrMap {
    type V = Map<Seq<char>, AttrModel>;

    closed spec fn view(&self) -> Map<Seq<char>, AttrModel> {
        Map::new(
            |key: Seq<char>| exists|at: int| self.holds(key, at),
            |key: Seq<char>| self.entries[self.place(key)].1@,
        )
    }
}

} // verus!
