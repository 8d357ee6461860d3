//! A single typed value under a fixed key.

use vstd::prelude::*;
use core::marker::PhantomData;
use crate::codec::Codec;
use crate::policy::QueryPolicy;
use crate::schema::{default_key, default_key_spec};
use crate::storage::{readable, stored, written_back, Storage, Store};

verus! {

/// A typed value kept under one key of the store, read by the policy `P`.
///
/// The item holds no state of its own: it knows where the value lives and
/// how a read is resolved. Its key is fixed when it is made.
pub struct StorageValue<T, P> {
    key: Vec<u8>,
    policy: P,
    value: PhantomData<T>,
}

impl<T: Codec, P: QueryPolicy<T>> StorageValue<T, P> {
    /// The key that the value lives under.
    pub closed spec fn key_spec(&self) -> Seq<u8> {
        self.key@
    }

    /// The policy that reads are resolved by.
    pub closed spec fn policy_spec(&self) -> P {
        self.policy
    }

    /// What stands under the item's key in `store` can be read: its bytes
    /// are a `T`, and the policy has an answer for it.
    pub open spec fn legible(&self, store: Store) -> bool {
        &&& readable::<T>(store, self.key_spec())
        &&& self.policy_spec().admits(stored::<T>(store, self.key_spec()))
    }

    /// The value that a read of `store` gives.
    pub open spec fn query_spec(&self, store: Store) -> P::Query {
        self.policy_spec().resolve_spec(stored::<T>(store, self.key_spec()))
    }

    /// An item at `key`, read by `policy`.
    pub fn new(key: Vec<u8>, policy: P) -> (item: Self)
        ensures
            item.key_spec() == key@,
            item.policy_spec() == policy,
    {
        StorageValue { key, policy, value: PhantomData }
    }

    /// The item `name` of the schema `namespace`, at the key that the
    /// schema gives it by default, read by `policy`.
    pub fn named(namespace: &str, name: &str, policy: P) -> (item: Self)
        ensures
            item.key_spec() == default_key_spec(namespace@, name@),
            item.policy_spec() == policy,
    {
        Self::new(default_key(namespace, name), policy)
    }

    /// The key that the value lives under.
    pub fn key(&self) -> (key: &[u8])
        ensures
            key@ == self.key_spec(),
    {
        self.key.as_slice()
    }

    /// Whether the value is set.
    pub fn is_set<S: Storage>(&self, storage: &S) -> (found: bool)
        ensures
            found == storage@.contains_key(self.key_spec()),
    {
        storage.is_set(self.key())
    }

    /// Reads the value, resolved by the policy.
    pub fn get<S: Storage>(&self, storage: &S) -> (query: P::Query)
        requires
            self.legible(storage@),
        ensures
            query == self.query_spec(storage@),
    {
        self.policy.resolve(storage.get(self.key()))
    }

    /// Reads the value as `get` does, then unsets the key.
    pub fn take<S: Storage>(&self, storage: &mut S) -> (query: P::Query)
        requires
            self.legible(old(storage)@),
        ensures
            query == self.query_spec(old(storage)@),
            final(storage)@ == old(storage)@.remove(self.key_spec()),
    {
        self.policy.resolve(storage.take(self.key()))
    }

    /// Writes `val` under the key, over whatever was there.
    pub fn put<S: Storage>(&self, val: &T, storage: &mut S)
        ensures
            final(storage)@ == old(storage)@.insert(self.key_spec(), val.encode_spec()),
    {
        storage.put(self.key(), val)
    }

    /// Unsets the key. Nothing changes where it was not set.
    pub fn kill<S: Storage>(&self, storage: &mut S)
        ensures
            final(storage)@ == old(storage)@.remove(self.key_spec()),
    {
        storage.kill(self.key())
    }

    /// Stores a value of the query type: what the policy settles it into is
    /// written, and where that is nothing the key is unset.
    pub fn write_back<S: Storage>(&self, query: P::Query, storage: &mut S)
        ensures
            final(storage)@ == written_back(
                old(storage)@,
                self.key_spec(),
                P::settle_spec(query),
            ),
    {
        match P::settle(query) {
            Some(value) => self.put(&value, storage),
            None => self.kill(storage),
        }
    }

    /// Reads the value, lets `f` change it in place, and stores the result.
    ///
    /// The store ends as `write_back` leaves it for the value that `f` left
    /// behind, whichever of the values that `f` may leave that is.
    pub fn mutate<F: FnOnce(&mut P::Query), S: Storage>(&self, f: F, storage: &mut S)
        requires
            self.legible(old(storage)@),
            forall|slot: &mut P::Query|
                *slot == self.query_spec(old(storage)@) ==> call_requires(f, (slot,)),
        ensures
            exists|slot: &mut P::Query|
                {
                    &&& *slot == self.query_spec(old(storage)@)
                    &&& #[trigger] call_ensures(f, (slot,), ())
                    &&& final(storage)@ == written_back(
                        old(storage)@,
                        self.key_spec(),
                        P::settle_spec(*final(slot)),
                    )
                },
    {
        let mut val = self.get(storage);
        f(&mut val);
        self.write_back(val, storage);
    }
}

impl<T: Codec, P: QueryPolicy<T>> StorageValue<T, P> {
    /// A value that was put is the value that is read: the store is
    /// legible after the write, and a read resolves the value written.
    pub proof fn lemma_get_after_put(&self, store: Store, value: T)
        ensures
            self.legible(store.insert(self.key_spec(), value.encode_spec())),
            self.query_spec(store.insert(self.key_spec(), value.encode_spec()))
                == self.policy_spec().resolve_spec(Some(value)),
    {
        T::decode_encode(value);
        self.policy_spec().settle_resolve(value);
    }

    /// After `kill` the key is unset, whatever stood there, and a read
    /// resolves absence.
    pub proof fn lemma_get_after_kill(&self, store: Store)
        ensures
            !store.remove(self.key_spec()).contains_key(self.key_spec()),
            self.query_spec(store.remove(self.key_spec())) == self.policy_spec().resolve_spec(
                None,
            ),
    {
    }

    /// A `mutate` whose closure leaves the value as it found it keeps the
    /// key set where it was set, unset where it was unset, and touches no
    /// other key. Where the key was unset, this holds of a policy that
    /// writes resolved absence back as absence; a policy with a default
    /// writes the default.
    pub proof fn lemma_mutate_unchanged_keeps_presence<F: FnOnce(&mut P::Query)>(
        &self,
        f: F,
        before: Store,
        after: Store,
    )
        requires
            self.legible(before),
            exists|slot: &mut P::Query|
                {
                    &&& *slot == self.query_spec(before)
                    &&& #[trigger] call_ensures(f, (slot,), ())
                    &&& after == written_back(
                        before,
                        self.key_spec(),
                        P::settle_spec(*final(slot)),
                    )
                },
            forall|slot: &mut P::Query| #[trigger]
                call_ensures(f, (slot,), ()) ==> *final(slot) == *slot,
            !before.contains_key(self.key_spec()) ==> P::settle_spec(
                self.policy_spec().resolve_spec(None),
            ) is None,
        ensures
            after.dom() == before.dom(),
            after.remove(self.key_spec()) == before.remove(self.key_spec()),
    {
        if before.contains_key(self.key_spec()) {
            self.policy_spec().settle_resolve(stored::<T>(before, self.key_spec()).unwrap());
        }
        assert(after.dom() =~= before.dom());
        assert(after.remove(self.key_spec()) =~= before.remove(self.key_spec()));
    }

    /// A `mutate` whose closure leaves the value as it found it leaves the
    /// store as it was, where the key holds the encoding of the value that
    /// is read from it.
    pub proof fn lemma_mutate_unchanged_keeps_bytes<F: FnOnce(&mut P::Query)>(
        &self,
        f: F,
        before: Store,
        after: Store,
    )
        requires
            self.legible(before),
            exists|slot: &mut P::Query|
                {
                    &&& *slot == self.query_spec(before)
                    &&& #[trigger] call_ensures(f, (slot,), ())
                    &&& after == written_back(
                        before,
                        self.key_spec(),
                        P::settle_spec(*final(slot)),
                    )
                },
            forall|slot: &mut P::Query| #[trigger]
                call_ensures(f, (slot,), ()) ==> *final(slot) == *slot,
            before.contains_key(self.key_spec()),
            before[self.key_spec()] == stored::<T>(
                before,
                self.key_spec(),
            ).unwrap().encode_spec(),
        ensures
            after == before,
    {
        self.policy_spec().settle_resolve(stored::<T>(before, self.key_spec()).unwrap());
        assert(after =~= before);
    }
}

} // verus!
