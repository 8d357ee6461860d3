//! A store held in memory.

use vstd::prelude::*;
use vstd::slice::slice_to_vec;
use crate::codec::Codec;
use crate::storage::{Storage, Store};

verus! {

/// Whether two byte strings are the same.
fn same_bytes(a: &[u8], b: &[u8]) -> (same: bool)
    ensures
        same == (a@ == b@),
{
    if a.len() != b.len() {
        return false;
    }
    let mut at: usize = 0;
    while at < a.len()
        invariant
            a@.len() == b@.len(),
            at <= a@.len(),
            forall|i: int| 0 <= i < at ==> a@[i] == b@[i],
        decreases a@.len() - at,
    {
        if a[at] != b[at] {
            return false;
        }
        at = at + 1;
    }
    assert(a@ =~= b@);
    true
}

/// A store that keeps its entries in memory, each key once.
pub struct MemoryStorage {
    entries: Vec<(Vec<u8>, Vec<u8>)>,
}

impl MemoryStorage {
    /// No key stands in the entries twice.
    #[verifier::type_invariant]
    spec fn distinct_keys(self) -> bool {
        forall|i: int, j: int|
            0 <= i < j < self.entries@.len() ==> self.entries@[i].0@ != self.entries@[j].0@
    }

    /// Whether some entry has the key `key`.
    spec fn has(self, key: Seq<u8>) -> bool {
        exists|i: int| 0 <= i < self.entries@.len() && #[trigger] self.entries@[i].0@ == key
    }

    /// The place of an entry with the key `key`.
    spec fn place(self, key: Seq<u8>) -> int {
        choose|i: int| 0 <= i < self.entries@.len() && #[trigger] self.entries@[i].0@ == key
    }

    /// A store with no key set.
    pub fn new() -> (storage: Self)
        ensures
            storage@ == Store::empty(),
    {
        let storage = MemoryStorage { entries: Vec::new() };
        assert(storage@ =~= Store::empty());
        storage
    }

    /// The number of keys that are set.
    pub fn len(&self) -> (count: usize)
        ensures
            count == self@.dom().len(),
            self@.dom().finite(),
    {
        proof {
            use_type_invariant(self);
            self.lemma_dom_len();
        }
        self.entries.len()
    }

    /// The bytes under `key`, if the key is set.
    pub fn get_raw(&self, key: &[u8]) -> (bytes: Option<Vec<u8>>)
        ensures
            match bytes {
                Some(bytes) => self@.contains_key(key@) && bytes@ == self@[key@],
                None => !self@.contains_key(key@),
            },
    {
        proof {
            use_type_invariant(self);
        }
        match self.find(key) {
            Some(at) => Some(slice_to_vec(self.entries[at].1.as_slice())),
            None => None,
        }
    }

    /// Writes `bytes` under `key` as they are, over whatever was there.
    pub fn put_raw(&mut self, key: &[u8], bytes: &[u8])
        ensures
            final(self)@ == old(self)@.insert(key@, bytes@),
    {
        proof {
            use_type_invariant(&*self);
        }
        let found = self.find(key);
        let mut entries: Vec<(Vec<u8>, Vec<u8>)> = Vec::new();
        core::mem::swap(&mut self.entries, &mut entries);
        match found {
            Some(at) => {
                entries.set(at, (slice_to_vec(key), slice_to_vec(bytes)));
            },
            None => {
                entries.push((slice_to_vec(key), slice_to_vec(bytes)));
            },
        }
        self.entries = entries;
        let ghost at = match found {
            Some(at) => at as int,
            None => self.entries@.len() - 1,
        };
        assert(self.entries@[at].0@ == key@);
        assert(self@ =~= old(self)@.insert(key@, bytes@)) by {
            assert forall|other: Seq<u8>| old(self).has(other) implies self.has(other) by {
                let i = old(self).place(other);
                assert(self.entries@[i].0@ == other);
            }
            assert forall|other: Seq<u8>| other != key@ && self.has(other) implies old(self).has(
                other,
            ) && self.entries@[self.place(other)].1@ == old(self).entries@[old(self).place(
                other,
            )].1@ by {
                let i = self.place(other);
                assert(old(self).entries@[i].0@ == other);
            }
        }
    }

    /// The keys that are set are as many as the entries.
    proof fn lemma_dom_len(self)
        requires
            self.distinct_keys(),
        ensures
            self@.dom().finite(),
            self@.dom().len() == self.entries@.len(),
    {
        let keys = self.entries@.map_values(|entry: (Vec<u8>, Vec<u8>)| entry.0@);
        assert(keys.no_duplicates());
        keys.unique_seq_to_set();
        assert(keys.to_set() =~= self@.dom()) by {
            assert forall|key: Seq<u8>| keys.to_set().contains(key) implies self@.dom().contains(
                key,
            ) by {
                let i = choose|i: int| 0 <= i < keys.len() && keys[i] == key;
                assert(self.entries@[i].0@ == key);
            }
            assert forall|key: Seq<u8>| self@.dom().contains(key) implies keys.to_set().contains(
                key,
            ) by {
                let i = self.place(key);
                assert(keys[i] == key);
            }
        }
    }

    /// The place of the entry with the key `key`, if there is one.
    fn find(&self, key: &[u8]) -> (found: Option<usize>)
        ensures
            match found {
                Some(at) => at < self.entries@.len() && self.entries@[at as int].0@ == key@,
                None => !self.has(key@),
            },
    {
        let mut at: usize = 0;
        while at < self.entries.len()
            invariant
                at <= self.entries@.len(),
                forall|i: int| 0 <= i < at ==> self.entries@[i].0@ != key@,
            decreases self.entries@.len() - at,
        {
            if same_bytes(self.entries[at].0.as_slice(), key) {
                return Some(at);
            }
            at = at + 1;
        }
        None
    }
}

impl Storage for MemoryStorage {
    closed spec fn view(&self) -> Store {
        Map::new(|key: Seq<u8>| self.has(key), |key: Seq<u8>| self.entries@[self.place(key)].1@)
    }

    fn is_set(&self, key: &[u8]) -> (found: bool) {
        self.find(key).is_some()
    }

    fn get<T: Codec>(&self, key: &[u8]) -> (value: Option<T>) {
        proof {
            use_type_invariant(self);
        }
        match self.find(key) {
            Some(at) => match T::decode(self.entries[at].1.as_slice()) {
                Some(value) => Some(value),
                None => unreached(),
            },
            None => None,
        }
    }

    fn put<T: Codec>(&mut self, key: &[u8], val: &T) {
        let mut bytes: Vec<u8> = Vec::new();
        val.encode_to(&mut bytes);
        assert(bytes@ =~= val.encode_spec());
        self.put_raw(key, bytes.as_slice());
    }

    fn kill(&mut self, key: &[u8]) {
        proof {
            use_type_invariant(&*self);
        }
        match self.find(key) {
            Some(at) => {
                let mut entries: Vec<(Vec<u8>, Vec<u8>)> = Vec::new();
                core::mem::swap(&mut self.entries, &mut entries);
                entries.remove(at);
                self.entries = entries;
                assert(self@ =~= old(self)@.remove(key@)) by {
                    assert forall|other: Seq<u8>| self.has(other) implies old(self).has(other)
                        && other != key@ && self.entries@[self.place(other)].1@ == old(
                        self,
                    ).entries@[old(self).place(other)].1@ by {
                        let i = self.place(other);
                        let j = if i < at { i } else { i + 1 };
                        assert(old(self).entries@[j].0@ == other);
                    }
                    assert forall|other: Seq<u8>|
                        old(self).has(other) && other != key@ implies self.has(other) by {
                        let j = old(self).place(other);
                        let i = if j < at { j } else { j - 1 };
                        assert(self.entries@[i].0@ == other);
                    }
                }
            },
            None => {
                assert(self@ =~= old(self)@.remove(key@));
            },
        }
    }
}

} // verus!
