use storage_items::{MemoryStorage, Optional, StorageList, StorageMap, StorageValue};

fn value_item() -> StorageValue<u32, Optional> {
    StorageValue::new(b"a".to_vec(), Optional)
}

fn list_item() -> StorageList<u64> {
    StorageList::new(b"b:".to_vec())
}

fn map_item() -> StorageMap<u32, [u8; 32], Optional> {
    StorageMap::new(b"c:".to_vec(), Optional)
}

#[test]
fn value() {
    let mut storage = MemoryStorage::new();
    let item = value_item();
    assert!(item.get(&storage).is_none());
    item.put(&100_000, &mut storage);
    assert_eq!(item.get(&storage), Some(100_000));
    item.kill(&mut storage);
    assert!(item.get(&storage).is_none());
}

#[test]
fn list() {
    let mut storage = MemoryStorage::new();
    let item = list_item();
    assert_eq!(item.len(&storage), 0);
    assert!(item.items(&storage).is_empty());

    item.set_items(&[0, 2, 4, 6, 8], &mut storage);
    assert_eq!(item.items(&storage), &[0, 2, 4, 6, 8]);
    assert_eq!(item.len(&storage), 5);

    item.set_item(2, &10, &mut storage);
    assert_eq!(item.items(&storage), &[0, 2, 10, 6, 8]);
    assert_eq!(item.len(&storage), 5);

    item.clear(&mut storage);
    assert_eq!(item.len(&storage), 0);
    assert!(item.items(&storage).is_empty());
}

#[test]
fn map() {
    let mut storage = MemoryStorage::new();
    let item = map_item();
    assert!(item.get(&5, &storage).is_none());
    item.insert(&5, &[1; 32], &mut storage);
    assert_eq!(item.get(&5, &storage), Some([1; 32]));
    assert_eq!(item.take(&5, &mut storage), Some([1; 32]));
    assert!(item.get(&5, &storage).is_none());
    assert!(item.get(&999, &storage).is_none());
}

#[test]
fn store_holds_encoded_bytes() {
    let mut storage = MemoryStorage::new();
    value_item().put(&100_000, &mut storage);
    assert_eq!(storage.get_raw(b"a"), Some(vec![0xa0, 0x86, 0x01, 0x00]));
    map_item().insert(&5, &[1; 32], &mut storage);
    assert_eq!(storage.get_raw(b"c:\x05\x00\x00\x00"), Some(vec![1u8; 32]));
    list_item().set_items(&[7], &mut storage);
    assert_eq!(storage.get_raw(b"b:len"), Some(vec![1, 0, 0, 0]));
    assert_eq!(storage.get_raw(b"b:\x00\x00\x00\x00"), Some(vec![7, 0, 0, 0, 0, 0, 0, 0]));
    assert_eq!(storage.len(), 4);
}
