//! A typed list: a length and one key for each index below it.

use vstd::prelude::*;
use vstd::slice::slice_to_vec;
use core::marker::PhantomData;
use crate::codec::{lemma_u32_encoding_len, lemma_u32_of_four_bytes, Codec};
use crate::storage::{readable, stored, Storage, Store};

verus! {

/// A typed list of `T` under a common key prefix.
///
/// The length lives under the prefix followed by the bytes `len`, as a
/// `u32`; an unset length is the length zero. The element at an index lives
/// under the prefix followed by the encoding of the index as a `u32`. The
/// list is kept without holes: `set_items` alone changes the length, and it
/// unsets what falls beyond the new one.
pub struct StorageList<T> {
    prefix: Vec<u8>,
    element: PhantomData<T>,
}

impl<T: Codec> StorageList<T> {
    /// The prefix that every key of the list starts with.
    pub closed spec fn prefix_spec(&self) -> Seq<u8> {
        self.prefix@
    }

    /// The key that the length lives under: the prefix, then `len`.
    pub open spec fn len_key_spec(&self) -> Seq<u8> {
        self.prefix_spec() + seq![0x6cu8, 0x65u8, 0x6eu8]
    }

    /// The key that the element at `index` lives under.
    pub open spec fn key_for_spec(&self, index: u32) -> Seq<u8> {
        self.prefix_spec() + index.encode_spec()
    }

    /// The index whose element lives under `key`, if `key` is an element
    /// key of this list.
    pub open spec fn index_of(&self, key: Seq<u8>) -> Option<u32> {
        let start = self.prefix_spec().len() as int;
        if key.len() == start + 4 && key.subrange(0, start) == self.prefix_spec() {
            u32::decode_spec(key.subrange(start, start + 4))
        } else {
            None
        }
    }

    /// `key` is the key of an element with an index in `from..to`.
    pub open spec fn in_range(&self, key: Seq<u8>, from: int, to: int) -> bool {
        match self.index_of(key) {
            Some(index) => from <= index < to,
            None => false,
        }
    }

    /// The length that `store` holds for the list.
    pub open spec fn len_spec(&self, store: Store) -> u32 {
        match stored::<u32>(store, self.len_key_spec()) {
            Some(count) => count,
            None => 0,
        }
    }

    /// The element that `store` holds at `index`, if one is set there.
    pub open spec fn item_spec(&self, store: Store, index: u32) -> Option<T> {
        stored::<T>(store, self.key_for_spec(index))
    }

    /// The elements below the length, in order.
    pub open spec fn items_spec(&self, store: Store) -> Seq<T> {
        Seq::new(
            self.len_spec(store) as nat,
            |index: int| self.item_spec(store, index as u32).unwrap(),
        )
    }

    /// The length can be read, and every index below it holds an element
    /// that can be read.
    pub open spec fn populated(&self, store: Store) -> bool {
        &&& readable::<u32>(store, self.len_key_spec())
        &&& forall|index: u32|
            index < self.len_spec(store) ==> self.item_spec(store, index).is_some()
    }

    /// The list has no holes and no leftovers: it is populated, and no
    /// element key is set at or beyond the length.
    pub open spec fn contiguous(&self, store: Store) -> bool {
        &&& self.populated(store)
        &&& forall|index: u32|
            index >= self.len_spec(store) ==> !store.contains_key(
                #[trigger] self.key_for_spec(index),
            )
    }

    /// `store` without the elements at the indices in `from..to`.
    pub open spec fn pruned(&self, store: Store, from: int, to: int) -> Store {
        Map::new(
            |key: Seq<u8>| store.contains_key(key) && !self.in_range(key, from, to),
            |key: Seq<u8>| store[key],
        )
    }

    /// `store` with the first `count` of `items` written at their indices.
    pub open spec fn filled(&self, store: Store, items: Seq<T>, count: int) -> Store {
        Map::new(
            |key: Seq<u8>| store.contains_key(key) || self.in_range(key, 0, count),
            |key: Seq<u8>|
                if self.in_range(key, 0, count) {
                    items[self.index_of(key).unwrap() as int].encode_spec()
                } else {
                    store[key]
                },
        )
    }

    /// `store` once the list is replaced by `items`: the elements beyond
    /// the new length are unset, the new length is written, and each item
    /// stands at its index. No other key changes.
    pub open spec fn replaced(&self, store: Store, items: Seq<T>) -> Store {
        let count = items.len() as u32;
        self.filled(
            self.pruned(store, count as int, self.len_spec(store) as int).insert(
                self.len_key_spec(),
                count.encode_spec(),
            ),
            items,
            count as int,
        )
    }

    /// `store` once the list is cleared: no element below the length is
    /// set, nor the length.
    pub open spec fn cleared(&self, store: Store) -> Store {
        self.pruned(store, 0, self.len_spec(store) as int).remove(self.len_key_spec())
    }

    /// A list under `prefix`.
    pub fn new(prefix: Vec<u8>) -> (item: Self)
        ensures
            item.prefix_spec() == prefix@,
    {
        StorageList { prefix, element: PhantomData }
    }

    /// The prefix that every key of the list starts with.
    pub fn prefix(&self) -> (prefix: &[u8])
        ensures
            prefix@ == self.prefix_spec(),
    {
        self.prefix.as_slice()
    }

    /// The key that the length lives under.
    pub fn len_key(&self) -> (key: Vec<u8>)
        ensures
            key@ == self.len_key_spec(),
    {
        let mut key = slice_to_vec(self.prefix.as_slice());
        key.push(0x6c);
        key.push(0x65);
        key.push(0x6e);
        assert(key@ =~= self.len_key_spec());
        key
    }

    /// The key that the element at `index` lives under.
    pub fn key_for(&self, index: u32) -> (key: Vec<u8>)
        ensures
            key@ == self.key_for_spec(index),
    {
        let mut key = slice_to_vec(self.prefix.as_slice());
        index.encode_to(&mut key);
        key
    }

    /// The length of the list; zero where none was ever written.
    pub fn len<S: Storage>(&self, storage: &S) -> (count: u32)
        requires
            readable::<u32>(storage@, self.len_key_spec()),
        ensures
            count == self.len_spec(storage@),
    {
        let key = self.len_key();
        storage.get_or_default(key.as_slice())
    }

    /// The element at `index`, if one is set there. An index at or beyond
    /// the length is not refused: it is read like any other.
    pub fn get<S: Storage>(&self, index: u32, storage: &S) -> (item: Option<T>)
        requires
            readable::<T>(storage@, self.key_for_spec(index)),
        ensures
            item == self.item_spec(storage@, index),
    {
        let key = self.key_for(index);
        storage.get(key.as_slice())
    }

    /// All the elements below the length, in order.
    pub fn items<S: Storage>(&self, storage: &S) -> (items: Vec<T>)
        requires
            self.populated(storage@),
        ensures
            items@ == self.items_spec(storage@),
    {
        let count = self.len(storage);
        let mut items: Vec<T> = Vec::new();
        let mut index: u32 = 0;
        while index < count
            invariant
                self.populated(storage@),
                count == self.len_spec(storage@),
                index <= count,
                items@.len() == index,
                forall|at: int|
                    0 <= at < index ==> items@[at] == self.item_spec(storage@, at as u32).unwrap(),
            decreases count - index,
        {
            let item = self.get(index, storage);
            items.push(item.unwrap());
            index = index + 1;
        }
        assert(items@ =~= self.items_spec(storage@));
        items
    }

    /// Unsets the element at `index` where the index is below the length.
    fn clear_item<S: Storage>(&self, index: u32, storage: &mut S)
        requires
            readable::<u32>(old(storage)@, self.len_key_spec()),
        ensures
            final(storage)@ == if index < self.len_spec(old(storage)@) {
                old(storage)@.remove(self.key_for_spec(index))
            } else {
                old(storage)@
            },
    {
        if index < self.len(storage) {
            let key = self.key_for(index);
            storage.kill(key.as_slice());
        }
    }

    /// Unsets the elements from `count` up to the length, then writes
    /// `count` as the length.
    fn set_len<S: Storage>(&self, count: u32, storage: &mut S)
        requires
            readable::<u32>(old(storage)@, self.len_key_spec()),
        ensures
            final(storage)@ == self.pruned(
                old(storage)@,
                count as int,
                self.len_spec(old(storage)@) as int,
            ).insert(self.len_key_spec(), count.encode_spec()),
    {
        let end = self.len(storage);
        let mut index: u32 = count;
        assert(storage@ =~= self.pruned(old(storage)@, count as int, index as int));
        while index < end
            invariant
                count <= index,
                index <= end || index == count,
                end == self.len_spec(old(storage)@),
                storage@ == self.pruned(old(storage)@, count as int, index as int),
            decreases end - index,
        {
            proof {
                self.lemma_index_of_key_for(index);
                self.lemma_key_for_index_of(self.len_key_spec());
            }
            self.clear_item(index, storage);
            proof {
                assert forall|key: Seq<u8>|
                    self.in_range(key, count as int, index as int + 1) <==> (self.in_range(
                        key,
                        count as int,
                        index as int,
                    ) || key == self.key_for_spec(index)) by {
                    self.lemma_key_for_index_of(key);
                }
                assert(storage@ =~= self.pruned(old(storage)@, count as int, index as int + 1));
            }
            index = index + 1;
        }
        proof {
            assert(self.pruned(old(storage)@, count as int, index as int) =~= self.pruned(
                old(storage)@,
                count as int,
                end as int,
            ));
        }
        let key = self.len_key();
        storage.put(key.as_slice(), &count);
    }

    /// Writes `item` at `index` where the index is below the length. A
    /// write at or beyond the length is dropped, so that the list keeps
    /// its shape.
    pub fn set_item<S: Storage>(&self, index: u32, item: &T, storage: &mut S)
        requires
            readable::<u32>(old(storage)@, self.len_key_spec()),
        ensures
            final(storage)@ == if index < self.len_spec(old(storage)@) {
                old(storage)@.insert(self.key_for_spec(index), item.encode_spec())
            } else {
                old(storage)@
            },
            self.contiguous(old(storage)@) ==> self.contiguous(final(storage)@),
    {
        if index < self.len(storage) {
            let key = self.key_for(index);
            storage.put(key.as_slice(), item);
            proof {
                if self.contiguous(old(storage)@) {
                    self.lemma_set_item_contiguous(old(storage)@, index, *item);
                }
            }
        }
    }

    /// Replaces the list by `items`.
    pub fn set_items<S: Storage>(&self, items: &[T], storage: &mut S)
        requires
            readable::<u32>(old(storage)@, self.len_key_spec()),
            items@.len() <= u32::MAX,
        ensures
            final(storage)@ == self.replaced(old(storage)@, items@),
            self.contiguous(old(storage)@) ==> self.contiguous(final(storage)@),
    {
        let count = items.len() as u32;
        self.set_len(count, storage);
        let ghost base = storage@;
        proof {
            self.lemma_key_for_index_of(self.len_key_spec());
            u32::decode_encode(count);
            assert(storage@ =~= self.filled(base, items@, 0));
        }
        let mut at: usize = 0;
        while at < items.len()
            invariant
                at <= items@.len() <= u32::MAX,
                count == items@.len(),
                base.contains_key(self.len_key_spec()),
                base[self.len_key_spec()] == count.encode_spec(),
                self.index_of(self.len_key_spec()) is None,
                u32::decode_spec(count.encode_spec()) == Some(count),
                storage@ == self.filled(base, items@, at as int),
            decreases items@.len() - at,
        {
            proof {
                self.lemma_index_of_key_for(at as u32);
            }
            self.set_item(at as u32, &items[at], storage);
            proof {
                assert forall|key: Seq<u8>|
                    self.in_range(key, 0, at as int + 1) <==> (self.in_range(key, 0, at as int)
                        || key == self.key_for_spec(at as u32)) by {
                    self.lemma_key_for_index_of(key);
                }
                assert(storage@ =~= self.filled(base, items@, at as int + 1));
            }
            at = at + 1;
        }
        proof {
            if self.contiguous(old(storage)@) {
                self.lemma_replaced_contiguous(old(storage)@, items@);
            }
        }
    }

    /// Unsets every element below the length, then the length.
    pub fn clear<S: Storage>(&self, storage: &mut S)
        requires
            readable::<u32>(old(storage)@, self.len_key_spec()),
        ensures
            final(storage)@ == self.cleared(old(storage)@),
            self.contiguous(old(storage)@) ==> self.contiguous(final(storage)@),
    {
        let end = self.len(storage);
        let mut index: u32 = 0;
        assert(storage@ =~= self.pruned(old(storage)@, 0, 0));
        while index < end
            invariant
                index <= end,
                end == self.len_spec(old(storage)@),
                storage@ == self.pruned(old(storage)@, 0, index as int),
            decreases end - index,
        {
            proof {
                self.lemma_index_of_key_for(index);
                self.lemma_key_for_index_of(self.len_key_spec());
            }
            self.clear_item(index, storage);
            proof {
                assert forall|key: Seq<u8>|
                    self.in_range(key, 0, index as int + 1) <==> (self.in_range(
                        key,
                        0,
                        index as int,
                    ) || key == self.key_for_spec(index)) by {
                    self.lemma_key_for_index_of(key);
                }
                assert(storage@ =~= self.pruned(old(storage)@, 0, index as int + 1));
            }
            index = index + 1;
        }
        let key = self.len_key();
        storage.kill(key.as_slice());
        proof {
            self.lemma_cleared_is_empty(old(storage)@);
        }
    }
}

impl<T: Codec> StorageList<T> {
    /// The key of an index is an element key of that index.
    pub proof fn lemma_index_of_key_for(&self, index: u32)
        ensures
            self.index_of(self.key_for_spec(index)) == Some(index),
            self.key_for_spec(index) != self.len_key_spec(),
    {
        let start = self.prefix_spec().len() as int;
        let key = self.key_for_spec(index);
        lemma_u32_encoding_len(index);
        u32::decode_encode(index);
        assert(key.subrange(0, start) =~= self.prefix_spec());
        assert(key.subrange(start, start + 4) =~= index.encode_spec());
    }

    /// An element key is the key of its index and of no other, and the
    /// length key is no element key.
    pub proof fn lemma_key_for_index_of(&self, key: Seq<u8>)
        ensures
            self.index_of(key) matches Some(index) ==> key == self.key_for_spec(index),
            self.index_of(self.len_key_spec()) is None,
    {
        if let Some(index) = self.index_of(key) {
            let start = self.prefix_spec().len() as int;
            lemma_u32_of_four_bytes(key.subrange(start, start + 4));
            assert(key =~= key.subrange(0, start) + key.subrange(start, start + 4));
        }
    }

    /// A store in which none of the list's keys is set holds the empty
    /// list, without holes or leftovers.
    pub proof fn lemma_unset_is_contiguous(&self, store: Store)
        requires
            !store.contains_key(self.len_key_spec()),
            forall|index: u32| !store.contains_key(#[trigger] self.key_for_spec(index)),
        ensures
            self.contiguous(store),
            self.len_spec(store) == 0,
            self.items_spec(store) == Seq::<T>::empty(),
    {
        assert(self.items_spec(store) =~= Seq::<T>::empty());
    }

    /// After the list is replaced by `items`, its length is their number
    /// and its elements are `items`, in order.
    pub proof fn lemma_replaced_holds_items(&self, store: Store, items: Seq<T>)
        requires
            items.len() <= u32::MAX,
        ensures
            self.populated(self.replaced(store, items)),
            self.len_spec(self.replaced(store, items)) == items.len(),
            self.items_spec(self.replaced(store, items)) == items,
    {
        let after = self.replaced(store, items);
        let count = items.len() as u32;
        self.lemma_key_for_index_of(self.len_key_spec());
        u32::decode_encode(count);
        assert(self.len_spec(after) == count);
        assert forall|index: u32| index < count implies self.item_spec(after, index) == Some(
            items[index as int],
        ) by {
            self.lemma_index_of_key_for(index);
            T::decode_encode(items[index as int]);
        }
        assert(self.items_spec(after) =~= items);
    }

    /// After the list is replaced by fewer items than it held, the
    /// elements from the new length up to the old one are unset: a read at
    /// such an index finds nothing.
    pub proof fn lemma_replaced_prunes(&self, store: Store, items: Seq<T>, index: u32)
        requires
            items.len() <= index < self.len_spec(store),
        ensures
            !self.replaced(store, items).contains_key(self.key_for_spec(index)),
            self.item_spec(self.replaced(store, items), index) is None,
    {
        self.lemma_index_of_key_for(index);
    }

    /// Replacing the list changes its own keys only: a key that is neither
    /// the length key nor the key of an element below the old or the new
    /// length stands as it stood.
    pub proof fn lemma_replaced_keeps_others(&self, store: Store, items: Seq<T>, key: Seq<u8>)
        requires
            items.len() <= u32::MAX,
            key != self.len_key_spec(),
            !self.in_range(key, 0, items.len() as int),
            !self.in_range(key, 0, self.len_spec(store) as int),
        ensures
            self.replaced(store, items).contains_key(key) == store.contains_key(key),
            store.contains_key(key) ==> self.replaced(store, items)[key] == store[key],
    {
    }

    /// A list without holes or leftovers is one after it is replaced.
    pub proof fn lemma_replaced_contiguous(&self, store: Store, items: Seq<T>)
        requires
            items.len() <= u32::MAX,
            self.contiguous(store),
        ensures
            self.contiguous(self.replaced(store, items)),
    {
        let after = self.replaced(store, items);
        self.lemma_replaced_holds_items(store, items);
        assert forall|index: u32| index >= self.len_spec(after) implies !after.contains_key(
            #[trigger] self.key_for_spec(index),
        ) by {
            self.lemma_index_of_key_for(index);
        }
    }

    /// A list without holes or leftovers is one after an element below its
    /// length is overwritten, with the same length.
    pub proof fn lemma_set_item_contiguous(&self, store: Store, index: u32, item: T)
        requires
            self.contiguous(store),
            index < self.len_spec(store),
        ensures
            self.contiguous(store.insert(self.key_for_spec(index), item.encode_spec())),
            self.len_spec(store.insert(self.key_for_spec(index), item.encode_spec()))
                == self.len_spec(store),
            self.items_spec(store.insert(self.key_for_spec(index), item.encode_spec()))
                == self.items_spec(store).update(index as int, item),
    {
        let after = store.insert(self.key_for_spec(index), item.encode_spec());
        self.lemma_index_of_key_for(index);
        T::decode_encode(item);
        assert forall|other: u32| other < self.len_spec(after) implies self.item_spec(
            after,
            other,
        ).is_some() by {
            self.lemma_index_of_key_for(other);
            assert(self.item_spec(store, other).is_some());
        }
        assert forall|other: u32| other >= self.len_spec(after) implies !after.contains_key(
            #[trigger] self.key_for_spec(other),
        ) by {
            self.lemma_index_of_key_for(other);
        }
        assert forall|at: int| 0 <= at < self.len_spec(store) implies #[trigger] self.items_spec(
            after,
        )[at] == self.items_spec(store).update(index as int, item)[at] by {
            if at != index {
                self.lemma_index_of_key_for(at as u32);
            }
        }
        assert(self.items_spec(after) =~= self.items_spec(store).update(index as int, item));
    }

    /// A cleared list has the length zero and no elements, and where it
    /// was without holes or leftovers none of its keys is set any more.
    pub proof fn lemma_cleared_is_empty(&self, store: Store)
        ensures
            self.len_spec(self.cleared(store)) == 0,
            self.items_spec(self.cleared(store)) == Seq::<T>::empty(),
            self.populated(self.cleared(store)),
            self.contiguous(store) ==> self.contiguous(self.cleared(store)),
            self.contiguous(store) ==> forall|index: u32|
                !self.cleared(store).contains_key(#[trigger] self.key_for_spec(index)),
    {
        let after = self.cleared(store);
        assert(self.items_spec(after) =~= Seq::<T>::empty());
        if self.contiguous(store) {
            assert forall|index: u32| !after.contains_key(
                #[trigger] self.key_for_spec(index),
            ) by {
                self.lemma_index_of_key_for(index);
            }
        }
    }
}

} // verus!
