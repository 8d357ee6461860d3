//! The raw store that the typed accessors sit on.

use vstd::prelude::*;
use crate::codec::Codec;

verus! {

/// A store as contracts see it: the keys that are set, each with the bytes
/// under it.
pub type Store = Map<Seq<u8>, Seq<u8>>;

/// What `store` holds under `key`, read as a `T`: nothing where the key is
/// unset, and nothing where its bytes are no `T`.
pub open spec fn stored<T: Codec>(store: Store, key: Seq<u8>) -> Option<T> {
    if store.contains_key(key) {
        T::decode_spec(store[key])
    } else {
        None
    }
}

/// The bytes under `key`, if it is set, are the encoding of some `T`.
pub open spec fn readable<T: Codec>(store: Store, key: Seq<u8>) -> bool {
    store.contains_key(key) ==> T::decode_spec(store[key]).is_some()
}

/// The store once `kept` stands under `key`: a value is written there in
/// its encoding, and nothing unsets the key.
pub open spec fn written_back<T: Codec>(
    store: Store,
    key: Seq<u8>,
    kept: Option<T>,
) -> Store {
    match kept {
        Some(value) => store.insert(key, value.encode_spec()),
        None => store.remove(key),
    }
}

/// A store of byte strings under byte-string keys.
///
/// The view of a store is the map from each key that is set to the bytes
/// under it. Writes are seen by every later read, and nothing leaves the
/// store but by `kill`.
pub trait Storage {
    /// The keys that are set, each with its bytes.
    spec fn view(&self) -> Store;

    /// Whether `key` is set.
    fn is_set(&self, key: &[u8]) -> (found: bool)
        ensures
            found == self@.contains_key(key@),
    ;

    /// Reads the value under `key`, if the key is set. Bytes that are no
    /// `T` are a defect of the caller, who rules them out.
    fn get<T: Codec>(&self, key: &[u8]) -> (value: Option<T>)
        requires
            readable::<T>(self@, key@),
        ensures
            value == stored::<T>(self@, key@),
    ;

    /// Reads the value under a key that must be set.
    fn require<T: Codec>(&self, key: &[u8]) -> (value: T)
        requires
            self@.contains_key(key@),
            readable::<T>(self@, key@),
        ensures
            Some(value) == stored::<T>(self@, key@),
    {
        self.get(key).unwrap()
    }

    /// Reads the value under `key`, or makes the type's default where the
    /// key is unset.
    fn get_or_default<T: Codec + Default>(&self, key: &[u8]) -> (value: T)
        requires
            readable::<T>(self@, key@),
        ensures
            match stored::<T>(self@, key@) {
                Some(v) => value == v,
                None => call_ensures(T::default, (), value),
            },
    {
        match self.get(key) {
            Some(v) => v,
            None => T::default(),
        }
    }

    /// Writes the encoding of `val` under `key`, over whatever was there.
    fn put<T: Codec>(&mut self, key: &[u8], val: &T)
        ensures
            final(self)@ == old(self)@.insert(key@, val.encode_spec()),
    ;

    /// Unsets `key`. Nothing changes where it was not set.
    fn kill(&mut self, key: &[u8])
        ensures
            final(self)@ == old(self)@.remove(key@),
    ;

    /// Reads the value under `key`, then unsets the key.
    fn take<T: Codec>(&mut self, key: &[u8]) -> (value: Option<T>)
        requires
            readable::<T>(old(self)@, key@),
        ensures
            value == stored::<T>(old(self)@, key@),
            final(self)@ == old(self)@.remove(key@),
    {
        let value = self.get(key);
        self.kill(key);
        value
    }

    /// Reads the value under a key that must be set, then unsets the key.
    fn take_or_panic<T: Codec>(&mut self, key: &[u8]) -> (value: T)
        requires
            old(self)@.contains_key(key@),
            readable::<T>(old(self)@, key@),
        ensures
            Some(value) == stored::<T>(old(self)@, key@),
            final(self)@ == old(self)@.remove(key@),
    {
        self.take(key).unwrap()
    }

    /// Reads the value under `key`, or makes the type's default where the
    /// key is unset; then unsets the key.
    fn take_or_default<T: Codec + Default>(&mut self, key: &[u8]) -> (value: T)
        requires
            readable::<T>(old(self)@, key@),
        ensures
            match stored::<T>(old(self)@, key@) {
                Some(v) => value == v,
                None => call_ensures(T::default, (), value),
            },
            final(self)@ == old(self)@.remove(key@),
    {
        match self.take(key) {
            Some(v) => v,
            None => T::default(),
        }
    }
}

} // verus!
