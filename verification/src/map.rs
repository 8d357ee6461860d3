//! A typed map under a common key prefix.

use vstd::prelude::*;
use vstd::slice::slice_to_vec;
use core::marker::PhantomData;
use crate::codec::Codec;
use crate::policy::QueryPolicy;
use crate::schema::{default_key, default_key_spec};
use crate::storage::{readable, stored, written_back, Storage, Store};

verus! {

/// A typed map from `K` to `V`, each entry under a key of its own, read by
/// the policy `P`.
///
/// The entry of a logical key lives under the item's prefix followed by the
/// encoding of that key, and nowhere else. The item holds no state of its
/// own, and its prefix is fixed when it is made.
pub struct StorageMap<K, V, P> {
    prefix: Vec<u8>,
    policy: P,
    entry: PhantomData<(K, V)>,
}

impl<K: Codec, V: Codec, P: QueryPolicy<V>> StorageMap<K, V, P> {
    /// The prefix that every entry's key starts with.
    pub closed spec fn prefix_spec(&self) -> Seq<u8> {
        self.prefix@
    }

    /// The policy that reads are resolved by.
    pub closed spec fn policy_spec(&self) -> P {
        self.policy
    }

    /// The key in the store that the entry of `x` lives under.
    pub open spec fn key_for_spec(&self, x: K) -> Seq<u8> {
        self.prefix_spec() + x.encode_spec()
    }

    /// What stands under the key of `x` in `store` can be read: its bytes
    /// are a `V`, and the policy has an answer for it.
    pub open spec fn legible(&self, store: Store, x: K) -> bool {
        &&& readable::<V>(store, self.key_for_spec(x))
        &&& self.policy_spec().admits(stored::<V>(store, self.key_for_spec(x)))
    }

    /// The value that a read of the entry of `x` in `store` gives.
    pub open spec fn query_spec(&self, store: Store, x: K) -> P::Query {
        self.policy_spec().resolve_spec(stored::<V>(store, self.key_for_spec(x)))
    }

    /// A map under `prefix`, read by `policy`.
    pub fn new(prefix: Vec<u8>, policy: P) -> (item: Self)
        ensures
            item.prefix_spec() == prefix@,
            item.policy_spec() == policy,
    {
        StorageMap { prefix, policy, entry: PhantomData }
    }

    /// The map `name` of the schema `namespace`, under the prefix that the
    /// schema gives it by default, read by `policy`.
    pub fn named(namespace: &str, name: &str, policy: P) -> (item: Self)
        ensures
            item.prefix_spec() == default_key_spec(namespace@, name@),
            item.policy_spec() == policy,
    {
        Self::new(default_key(namespace, name), policy)
    }

    /// The prefix that every entry's key starts with.
    pub fn prefix(&self) -> (prefix: &[u8])
        ensures
            prefix@ == self.prefix_spec(),
    {
        self.prefix.as_slice()
    }

    /// The key in the store that the entry of `x` lives under: the prefix,
    /// then the encoding of `x`.
    pub fn key_for(&self, x: &K) -> (key: Vec<u8>)
        ensures
            key@ == self.key_for_spec(*x),
    {
        let mut key = slice_to_vec(self.prefix.as_slice());
        x.encode_to(&mut key);
        key
    }

    /// Whether the entry of `key` is set.
    pub fn is_set<S: Storage>(&self, key: &K, storage: &S) -> (found: bool)
        ensures
            found == storage@.contains_key(self.key_for_spec(*key)),
    {
        let at = self.key_for(key);
        storage.is_set(at.as_slice())
    }

    /// Reads the entry of `key`, resolved by the policy.
    pub fn get<S: Storage>(&self, key: &K, storage: &S) -> (query: P::Query)
        requires
            self.legible(storage@, *key),
        ensures
            query == self.query_spec(storage@, *key),
    {
        let at = self.key_for(key);
        self.policy.resolve(storage.get(at.as_slice()))
    }

    /// Reads the entry of `key` as `get` does, then unsets it.
    pub fn take<S: Storage>(&self, key: &K, storage: &mut S) -> (query: P::Query)
        requires
            self.legible(old(storage)@, *key),
        ensures
            query == self.query_spec(old(storage)@, *key),
            final(storage)@ == old(storage)@.remove(self.key_for_spec(*key)),
    {
        let at = self.key_for(key);
        self.policy.resolve(storage.take(at.as_slice()))
    }

    /// Sets the entry of `key` to `val`, over whatever was there.
    pub fn insert<S: Storage>(&self, key: &K, val: &V, storage: &mut S)
        ensures
            final(storage)@ == old(storage)@.insert(self.key_for_spec(*key), val.encode_spec()),
    {
        let at = self.key_for(key);
        storage.put(at.as_slice(), val)
    }

    /// Unsets the entry of `key`. Nothing changes where it was not set.
    pub fn remove<S: Storage>(&self, key: &K, storage: &mut S)
        ensures
            final(storage)@ == old(storage)@.remove(self.key_for_spec(*key)),
    {
        let at = self.key_for(key);
        storage.kill(at.as_slice())
    }

    /// Stores a value of the query type as the entry of `key`: what the
    /// policy settles it into is written, and where that is nothing the
    /// entry is unset.
    pub fn write_back<S: Storage>(&self, key: &K, query: P::Query, storage: &mut S)
        ensures
            final(storage)@ == written_back(
                old(storage)@,
                self.key_for_spec(*key),
                P::settle_spec(query),
            ),
    {
        match P::settle(query) {
            Some(value) => self.insert(key, &value, storage),
            None => self.remove(key, storage),
        }
    }

    /// Takes the entry of `key` out, lets `f` change it in place, and
    /// stores the result.
    ///
    /// The store ends as `write_back` leaves it for the value that `f` left
    /// behind, whichever of the values that `f` may leave that is.
    pub fn mutate<F: FnOnce(&mut P::Query), S: Storage>(&self, key: &K, f: F, storage: &mut S)
        requires
            self.legible(old(storage)@, *key),
            forall|slot: &mut P::Query|
                *slot == self.query_spec(old(storage)@, *key) ==> call_requires(f, (slot,)),
        ensures
            exists|slot: &mut P::Query|
                {
                    &&& *slot == self.query_spec(old(storage)@, *key)
                    &&& #[trigger] call_ensures(f, (slot,), ())
                    &&& final(storage)@ == written_back(
                        old(storage)@,
                        self.key_for_spec(*key),
                        P::settle_spec(*final(slot)),
                    )
                },
    {
        let mut val = self.take(key, storage);
        f(&mut val);
        let ghost left = val;
        self.write_back(key, val, storage);
        assert(storage@ =~= written_back(
            old(storage)@,
            self.key_for_spec(*key),
            P::settle_spec(left),
        ));
    }
}

impl<K: Codec, V: Codec, P: QueryPolicy<V>> StorageMap<K, V, P> {
    /// Two keys with one encoding are one key, so distinct logical keys
    /// live under distinct keys of the store.
    pub proof fn lemma_key_for_injective(&self, k1: K, k2: K)
        requires
            k1 != k2,
        ensures
            self.key_for_spec(k1) != self.key_for_spec(k2),
    {
        if self.key_for_spec(k1) == self.key_for_spec(k2) {
            let start = self.prefix_spec().len() as int;
            let a = self.key_for_spec(k1);
            let b = self.key_for_spec(k2);
            assert(a.subrange(start, a.len() as int) =~= k1.encode_spec());
            assert(b.subrange(start, b.len() as int) =~= k2.encode_spec());
            K::decode_encode(k1);
            K::decode_encode(k2);
        }
    }

    /// An entry that was inserted is the entry that is read.
    pub proof fn lemma_get_after_insert(&self, store: Store, key: K, value: V)
        ensures
            self.legible(store.insert(self.key_for_spec(key), value.encode_spec()), key),
            self.query_spec(store.insert(self.key_for_spec(key), value.encode_spec()), key)
                == self.policy_spec().resolve_spec(Some(value)),
    {
        V::decode_encode(value);
        self.policy_spec().settle_resolve(value);
    }

    /// Writing or unsetting the entry of one key leaves the entry of every
    /// other key as it was: a read there gives what it gave before, which
    /// for an entry that is not set is the policy's answer to absence.
    pub proof fn lemma_other_entries_kept(
        &self,
        store: Store,
        written: K,
        kept: Option<V>,
        other: K,
    )
        requires
            written != other,
        ensures
            stored::<V>(
                written_back(store, self.key_for_spec(written), kept),
                self.key_for_spec(other),
            ) == stored::<V>(store, self.key_for_spec(other)),
            self.query_spec(written_back(store, self.key_for_spec(written), kept), other)
                == self.query_spec(store, other),
            self.legible(store, other) ==> self.legible(
                written_back(store, self.key_for_spec(written), kept),
                other,
            ),
            !store.contains_key(self.key_for_spec(other)) ==> self.query_spec(
                written_back(store, self.key_for_spec(written), kept),
                other,
            ) == self.policy_spec().resolve_spec(None),
    {
        self.lemma_key_for_injective(written, other);
    }

    /// A `mutate` whose closure leaves the value as it found it keeps the
    /// entry set where it was set, unset where it was unset, and touches
    /// no other key. Where the entry was unset, this holds of a policy
    /// that writes resolved absence back as absence; a policy with a
    /// default writes the default.
    pub proof fn lemma_mutate_unchanged_keeps_presence<F: FnOnce(&mut P::Query)>(
        &self,
        key: K,
        f: F,
        before: Store,
        after: Store,
    )
        requires
            self.legible(before, key),
            exists|slot: &mut P::Query|
                {
                    &&& *slot == self.query_spec(before, key)
                    &&& #[trigger] call_ensures(f, (slot,), ())
                    &&& after == written_back(
                        before,
                        self.key_for_spec(key),
                        P::settle_spec(*final(slot)),
                    )
                },
            forall|slot: &mut P::Query| #[trigger]
                call_ensures(f, (slot,), ()) ==> *final(slot) == *slot,
            !before.contains_key(self.key_for_spec(key)) ==> P::settle_spec(
                self.policy_spec().resolve_spec(None),
            ) is None,
        ensures
            after.dom() == before.dom(),
            after.remove(self.key_for_spec(key)) == before.remove(self.key_for_spec(key)),
    {
        let at = self.key_for_spec(key);
        if before.contains_key(at) {
            self.policy_spec().settle_resolve(stored::<V>(before, at).unwrap());
        }
        assert(after.dom() =~= before.dom());
        assert(after.remove(at) =~= before.remove(at));
    }

    /// A `mutate` whose closure leaves the value as it found it leaves the
    /// store as it was, where the entry holds the encoding of the value
    /// that is read from it.
    pub proof fn lemma_mutate_unchanged_keeps_bytes<F: FnOnce(&mut P::Query)>(
        &self,
        key: K,
        f: F,
        before: Store,
        after: Store,
    )
        requires
            self.legible(before, key),
            exists|slot: &mut P::Query|
                {
                    &&& *slot == self.query_spec(before, key)
                    &&& #[trigger] call_ensures(f, (slot,), ())
                    &&& after == written_back(
                        before,
                        self.key_for_spec(key),
                        P::settle_spec(*final(slot)),
                    )
                },
            forall|slot: &mut P::Query| #[trigger]
                call_ensures(f, (slot,), ()) ==> *final(slot) == *slot,
            before.contains_key(self.key_for_spec(key)),
            before[self.key_for_spec(key)] == stored::<V>(
                before,
                self.key_for_spec(key),
            ).unwrap().encode_spec(),
        ensures
            after == before,
    {
        self.policy_spec().settle_resolve(
            stored::<V>(before, self.key_for_spec(key)).unwrap(),
        );
        assert(after =~= before);
    }
}

} // verus!
