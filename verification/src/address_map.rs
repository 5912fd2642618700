//! An insertion-ordered map keyed by address.
//!
//! The ledger keeps its balances, stakes and validators in maps keyed by an
//! address string. `AddressMap` stores them as two parallel vectors, so that
//! entries can be walked in a fixed order, and never holds a key twice.

use vstd::prelude::*;

verus! {

/// The mathematical content of an [`AddressMap`]: keys and values, position by position.
pub struct Entries<V> {
    pub keys: Seq<Seq<char>>,
    pub values: Seq<V>,
}

impl<V> Entries<V> {
    /// Every key has a value, and no key occurs twice.
    pub open spec fn wf(self) -> bool {
        &&& self.keys.len() == self.values.len()
        &&& self.keys.no_duplicates()
    }

    /// The map without any entry.
    pub open spec fn empty() -> Entries<V> {
        Entries { keys: Seq::empty(), values: Seq::empty() }
    }

    /// The number of entries.
    pub open spec fn len(self) -> nat {
        self.keys.len()
    }

    /// Whether `key` has a value.
    pub open spec fn contains(self, key: Seq<char>) -> bool {
        self.keys.contains(key)
    }

    /// The position of `key`, meaningful only where the map contains it.
    pub open spec fn position(self, key: Seq<char>) -> int {
        self.keys.index_of(key)
    }

    /// The value of `key`, if it has one.
    pub open spec fn get(self, key: Seq<char>) -> Option<V> {
        if self.contains(key) {
            Some(self.values[self.position(key)])
        } else {
            None
        }
    }

    /// The map after `key` is bound to `value`: an existing entry keeps its
    /// position, a new one goes to the end.
    pub open spec fn put(self, key: Seq<char>, value: V) -> Entries<V> {
        if self.contains(key) {
            Entries { keys: self.keys, values: self.values.update(self.position(key), value) }
        } else {
            Entries { keys: self.keys.push(key), values: self.values.push(value) }
        }
    }

    /// The map without `key`; the other entries keep their order.
    pub open spec fn without(self, key: Seq<char>) -> Entries<V> {
        if self.contains(key) {
            Entries {
                keys: self.keys.remove(self.position(key)),
                values: self.values.remove(self.position(key)),
            }
        } else {
            self
        }
    }

    /// In a well-formed map the position of the key stored at `i` is `i`.
    pub proof fn lemma_position(self, i: int)
        requires
            self.wf(),
            0 <= i < self.len(),
        ensures
            self.contains(self.keys[i]),
            self.position(self.keys[i]) == i,
    {
    }

    /// `put` keeps a map well-formed, binds the key, and leaves other keys alone.
    pub proof fn lemma_put(self, key: Seq<char>, value: V)
        requires
            self.wf(),
        ensures
            self.put(key, value).wf(),
            self.put(key, value).get(key) == Some(value),
            forall|other: Seq<char>| other != key ==> self.put(key, value).get(other) == self.get(other),
            forall|other: Seq<char>|
                self.put(key, value).contains(other) <==> (other == key || self.contains(other)),
    {
        let after = self.put(key, value);
        if self.contains(key) {
            let p = self.position(key);
            assert forall|other: Seq<char>| other != key implies after.get(other) == self.get(other) by {
                if self.contains(other) {
                    assert(self.position(other) != p);
                }
            }
        } else {
            assert(after.keys.last() == key);
            assert(after.keys[self.len() as int] == key);
            assert forall|i: int, j: int| 0 <= i < j < after.keys.len() implies after.keys[i]
                != after.keys[j] by {
                if j == self.len() {
                    assert(self.keys[i] == after.keys[i]);
                    assert(self.keys.contains(self.keys[i]));
                }
            }
            assert(after.keys.contains(key));
            assert(after.position(key) == self.len());
            assert forall|other: Seq<char>| other != key implies after.get(other) == self.get(
                other,
            ) by {
                if self.contains(other) {
                    let q = self.position(other);
                    assert(after.keys[q] == other);
                    assert(after.contains(other));
                    assert(after.position(other) == q);
                } else {
                    if after.contains(other) {
                        let q = after.position(other);
                        assert(q < self.len());
                        assert(self.keys[q] == other);
                    }
                }
            }
            assert forall|other: Seq<char>| after.contains(other) <==> (other == key
                || self.contains(other)) by {
                if self.contains(other) {
                    let q = self.position(other);
                    assert(after.keys[q] == other);
                }
                if after.contains(other) && other != key {
                    let q = after.position(other);
                    assert(self.keys[q] == other);
                }
            }
        }
    }

    /// `without` keeps a map well-formed, unbinds the key, and leaves other keys alone.
    pub proof fn lemma_without(self, key: Seq<char>)
        requires
            self.wf(),
        ensures
            self.without(key).wf(),
            !self.without(key).contains(key),
            forall|other: Seq<char>| other != key ==> self.without(key).get(other) == self.get(other),
    {
        let after = self.without(key);
        if self.contains(key) {
            let p = self.position(key);
            assert forall|i: int| 0 <= i < after.keys.len() implies after.keys[i] == self.keys[if i
                < p {
                i
            } else {
                i + 1
            }] by {}
            assert forall|i: int, j: int| 0 <= i < j < after.keys.len() implies after.keys[i]
                != after.keys[j] by {}
            if after.contains(key) {
                let q = after.position(key);
                assert(after.keys[q] == key);
            }
            assert forall|other: Seq<char>| other != key implies after.get(other) == self.get(
                other,
            ) by {
                if self.contains(other) {
                    let q = self.position(other);
                    let q2 = if q < p { q } else { q - 1 };
                    assert(after.keys[q2] == other);
                    assert(after.contains(other));
                    assert(after.position(other) == q2);
                } else {
                    if after.contains(other) {
                        let q = after.position(other);
                        assert(after.keys[q] == other);
                        assert(self.keys[if q < p { q } else { q + 1 }] == other);
                    }
                }
            }
        }
    }
}

/// One binding of an [`AddressMap`].
struct Slot<V> {
    key: String,
    value: V,
}

/// An insertion-ordered map from address to `V`.
pub struct AddressMap<V> {
    slots: Vec<Slot<V>>,
}

spec fn slot_entries<V>(slots: Seq<Slot<V>>) -> Entries<V> {
    Entries {
        keys: slots.map_values(|s: Slot<V>| s.key@),
        values: slots.map_values(|s: Slot<V>| s.value),
    }
}

impl<V> View for AddressMap<V> {
    type V = Entries<V>;

    closed spec fn view(&self) -> Entries<V> {
        slot_entries(self.slots@)
    }
}

impl<V> AddressMap<V> {
    /// Holds of every `AddressMap`: each key has one value and occurs once.
    #[verifier::type_invariant]
    pub open spec fn well_formed(self) -> bool {
        self@.wf()
    }

    /// An empty map.
    pub fn new() -> (map: Self)
        ensures
            map@ == Entries::<V>::empty(),
    {
        let map = AddressMap { slots: Vec::new() };
        assert(map@.keys =~= Seq::empty());
        assert(map@.values =~= Seq::empty());
        map
    }

    /// The number of entries.
    pub fn len(&self) -> (n: usize)
        ensures
            n == self@.len(),
    {
        self.slots.len()
    }

    /// The position of `key`, if the map holds it.
    pub fn find(&self, key: &String) -> (found: Option<usize>)
        ensures
            found is Some <==> self@.contains(key@),
            found matches Some(i) ==> i == self@.position(key@) && 0 <= i < self@.len(),
    {
        proof {
            use_type_invariant(self);
        }
        let n = self.slots.len();
        let mut i: usize = 0;
        while i < n
            invariant
                n == self.slots@.len(),
                i <= n,
                self@.wf(),
                forall|j: int| 0 <= j < i ==> self@.keys[j] != key@,
            decreases n - i,
        {
            if self.slots[i].key == *key {
                proof {
                    assert(self@.keys[i as int] == key@);
                    self@.lemma_position(i as int);
                }
                return Some(i);
            }
            i = i + 1;
        }
        None
    }

    /// Whether `key` has a value.
    pub fn contains_key(&self, key: &String) -> (found: bool)
        ensures
            found == self@.contains(key@),
    {
        self.find(key).is_some()
    }

    /// The value of `key`, if it has one.
    pub fn get(&self, key: &String) -> (value: Option<&V>)
        ensures
            match value {
                Some(v) => self@.get(key@) == Some(*v),
                None => self@.get(key@) is None,
            },
    {
        match self.find(key) {
            Some(i) => Some(&self.slots[i].value),
            None => None,
        }
    }

    /// The key stored at position `i`.
    pub fn key_at(&self, i: usize) -> (key: &String)
        requires
            i < self@.len(),
        ensures
            key@ == self@.keys[i as int],
    {
        &self.slots[i].key
    }

    /// The value stored at position `i`.
    pub fn value_at(&self, i: usize) -> (value: &V)
        requires
            i < self@.len(),
        ensures
            *value == self@.values[i as int],
    {
        &self.slots[i].value
    }

    /// Binds `key` to `value`, replacing an earlier binding in place.
    pub fn insert(&mut self, key: String, value: V)
        ensures
            final(self)@ == old(self)@.put(key@, value),
    {
        proof {
            use_type_invariant(&*self);
            self@.lemma_put(key@, value);
        }
        let found = self.find(&key);
        let mut slots: Vec<Slot<V>> = Vec::new();
        proof {
            assert(slot_entries(slots@).keys =~= Seq::empty());
        }
        std::mem::swap(&mut self.slots, &mut slots);
        match found {
            Some(i) => {
                slots[i].value = value;
                assert(slot_entries(slots@).keys =~= old(self)@.keys);
                assert(slot_entries(slots@).values =~= old(self)@.values.update(i as int, value));
            },
            None => {
                slots.push(Slot { key, value });
                assert(slot_entries(slots@).keys =~= old(self)@.keys.push(key@));
                assert(slot_entries(slots@).values =~= old(self)@.values.push(value));
            },
        }
        self.slots = slots;
    }

    /// Removes `key` and its value, if present.
    pub fn remove(&mut self, key: &String)
        ensures
            final(self)@ == old(self)@.without(key@),
    {
        proof {
            use_type_invariant(&*self);
            self@.lemma_without(key@);
        }
        let found = self.find(key);
        match found {
            Some(i) => {
                let mut slots: Vec<Slot<V>> = Vec::new();
                proof {
                    assert(slot_entries(slots@).keys =~= Seq::empty());
                }
                std::mem::swap(&mut self.slots, &mut slots);
                slots.remove(i);
                assert(slot_entries(slots@).keys =~= old(self)@.keys.remove(i as int));
                assert(slot_entries(slots@).values =~= old(self)@.values.remove(i as int));
                self.slots = slots;
            },
            None => {},
        }
    }
}

} // verus!
