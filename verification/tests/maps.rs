use storage_items::{Defaulted, MemoryStorage, Optional, Required, StorageMap};

fn optional() -> StorageMap<u32, [u8; 32], Optional> {
    StorageMap::new(b"c:".to_vec(), Optional)
}

fn balances() -> StorageMap<[u8; 32], u64, Defaulted<u64>> {
    StorageMap::new(b"bal:".to_vec(), Defaulted::new(0))
}

fn required() -> StorageMap<u64, u32, Required> {
    StorageMap::new(b"req:".to_vec(), Required)
}

#[test]
fn prefix_is_the_declared_prefix() {
    assert_eq!(optional().prefix(), b"c:");
    assert_eq!(balances().prefix(), b"bal:");
}

#[test]
fn named_map_lives_under_the_default_prefix() {
    let item: StorageMap<u32, u64, Optional> = StorageMap::named("TestStorage", "MAPU32", Optional);
    assert_eq!(item.prefix(), b"TestStorage MAPU32");
    assert_eq!(item.key_for(&1), b"TestStorage MAPU32\x01\x00\x00\x00".to_vec());
}

#[test]
fn key_for_is_prefix_then_encoded_key() {
    assert_eq!(optional().key_for(&5), b"c:\x05\x00\x00\x00".to_vec());
    assert_eq!(optional().key_for(&999), b"c:\xe7\x03\x00\x00".to_vec());
    assert_eq!(required().key_for(&1), b"req:\x01\x00\x00\x00\x00\x00\x00\x00".to_vec());
    let mut expected = b"bal:".to_vec();
    expected.extend(&[7u8; 32]);
    assert_eq!(balances().key_for(&[7u8; 32]), expected);
    let bare: StorageMap<u32, u32, Optional> = StorageMap::new(Vec::new(), Optional);
    assert_eq!(bare.key_for(&1), vec![1, 0, 0, 0]);
}

#[test]
fn distinct_keys_live_under_distinct_store_keys() {
    let keys = [0u32, 1, 255, 256, 65_536, 999, u32::MAX];
    for (i, a) in keys.iter().enumerate() {
        for (j, b) in keys.iter().enumerate() {
            assert_eq!(i == j, optional().key_for(a) == optional().key_for(b));
        }
    }
}

#[test]
fn insert_at_one_key_is_not_seen_at_another() {
    let mut storage = MemoryStorage::new();
    optional().insert(&5, &[1; 32], &mut storage);
    assert_eq!(optional().get(&5, &storage), Some([1; 32]));
    assert_eq!(optional().get(&6, &storage), None);
    assert_eq!(optional().get(&(5 << 8), &storage), None);
    assert!(optional().is_set(&5, &storage));
    assert!(!optional().is_set(&6, &storage));

    balances().insert(&[1; 32], &10, &mut storage);
    assert_eq!(balances().get(&[1; 32], &storage), 10);
    assert_eq!(balances().get(&[2; 32], &storage), 0);
    assert_eq!(optional().get(&5, &storage), Some([1; 32]));
}

#[test]
fn insert_overwrites_and_remove_unsets() {
    let mut storage = MemoryStorage::new();
    optional().insert(&5, &[1; 32], &mut storage);
    optional().insert(&6, &[2; 32], &mut storage);
    optional().insert(&5, &[3; 32], &mut storage);
    assert_eq!(optional().get(&5, &storage), Some([3; 32]));
    assert_eq!(optional().get(&6, &storage), Some([2; 32]));
    optional().remove(&5, &mut storage);
    assert_eq!(optional().get(&5, &storage), None);
    assert_eq!(optional().get(&6, &storage), Some([2; 32]));
    optional().remove(&5, &mut storage);
    assert_eq!(storage.len(), 1);
}

#[test]
fn map_take_gives_what_get_gives_and_unsets() {
    let mut storage = MemoryStorage::new();
    assert_eq!(balances().take(&[1; 32], &mut storage), 0);
    balances().insert(&[1; 32], &10, &mut storage);
    balances().insert(&[2; 32], &20, &mut storage);
    assert_eq!(balances().take(&[1; 32], &mut storage), 10);
    assert!(!balances().is_set(&[1; 32], &storage));
    assert_eq!(balances().get(&[2; 32], &storage), 20);

    required().insert(&1, &2, &mut storage);
    assert_eq!(required().get(&1, &storage), 2);
    assert_eq!(required().take(&1, &mut storage), 2);
    assert!(!required().is_set(&1, &storage));
}

#[test]
fn map_write_back_puts_or_kills() {
    let mut storage = MemoryStorage::new();
    optional().write_back(&5, Some([4; 32]), &mut storage);
    assert_eq!(storage.get_raw(b"c:\x05\x00\x00\x00"), Some(vec![4u8; 32]));
    optional().write_back(&5, None, &mut storage);
    assert_eq!(storage.get_raw(b"c:\x05\x00\x00\x00"), None);
    balances().write_back(&[0; 32], 0, &mut storage);
    assert!(balances().is_set(&[0; 32], &storage));
}

#[test]
fn map_mutate_changes_one_entry() {
    let mut storage = MemoryStorage::new();
    balances().mutate(&[1; 32], |balance| *balance += 5, &mut storage);
    balances().mutate(&[1; 32], |balance| *balance += 5, &mut storage);
    balances().mutate(&[2; 32], |balance| *balance += 1, &mut storage);
    assert_eq!(balances().get(&[1; 32], &storage), 10);
    assert_eq!(balances().get(&[2; 32], &storage), 1);
    assert_eq!(balances().get(&[3; 32], &storage), 0);
    assert_eq!(storage.len(), 2);
}

#[test]
fn map_mutate_optional_sets_and_unsets() {
    let mut storage = MemoryStorage::new();
    optional().mutate(&5, |slot| *slot = Some([1; 32]), &mut storage);
    assert_eq!(optional().get(&5, &storage), Some([1; 32]));
    let mut seen = None;
    optional().mutate(&5, |slot| seen = slot.take(), &mut storage);
    assert_eq!(seen, Some([1; 32]));
    assert!(!optional().is_set(&5, &storage));
}

#[test]
fn map_mutate_that_changes_nothing_keeps_the_store() {
    let mut storage = MemoryStorage::new();
    optional().insert(&5, &[1; 32], &mut storage);
    balances().insert(&[1; 32], &10, &mut storage);
    required().insert(&1, &2, &mut storage);
    optional().mutate(&5, |_| (), &mut storage);
    optional().mutate(&6, |_| (), &mut storage);
    balances().mutate(&[1; 32], |_| (), &mut storage);
    required().mutate(&1, |_| (), &mut storage);
    assert_eq!(storage.len(), 3);
    assert_eq!(optional().get(&5, &storage), Some([1; 32]));
    assert_eq!(balances().get(&[1; 32], &storage), 10);
    assert_eq!(required().get(&1, &storage), 2);
    assert_eq!(storage.get_raw(b"req:\x01\x00\x00\x00\x00\x00\x00\x00"), Some(vec![2, 0, 0, 0]));
}
