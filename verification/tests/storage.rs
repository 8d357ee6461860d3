use storage_items::{MemoryStorage, Storage};

#[test]
fn new_store_is_empty() {
    let storage = MemoryStorage::new();
    assert_eq!(storage.len(), 0);
    assert!(!storage.is_set(b"a"));
    assert_eq!(storage.get_raw(b"a"), None);
    assert_eq!(storage.get::<u32>(b"a"), None);
}

#[test]
fn put_is_seen_by_reads() {
    let mut storage = MemoryStorage::new();
    storage.put(b"a", &7u32);
    assert!(storage.is_set(b"a"));
    assert!(!storage.is_set(b"b"));
    assert!(!storage.is_set(b""));
    assert_eq!(storage.get::<u32>(b"a"), Some(7));
    assert_eq!(storage.get_raw(b"a"), Some(vec![7, 0, 0, 0]));
    assert_eq!(storage.len(), 1);
}

#[test]
fn put_overwrites() {
    let mut storage = MemoryStorage::new();
    storage.put(b"a", &7u32);
    storage.put(b"b", &8u64);
    storage.put(b"a", &9u32);
    assert_eq!(storage.get::<u32>(b"a"), Some(9));
    assert_eq!(storage.get::<u64>(b"b"), Some(8));
    assert_eq!(storage.len(), 2);
}

#[test]
fn keys_are_whole_byte_strings() {
    let mut storage = MemoryStorage::new();
    storage.put(b"", &1u32);
    storage.put(b"a", &2u32);
    storage.put(b"ab", &3u32);
    storage.put(b"a\x00", &4u32);
    assert_eq!(storage.get::<u32>(b""), Some(1));
    assert_eq!(storage.get::<u32>(b"a"), Some(2));
    assert_eq!(storage.get::<u32>(b"ab"), Some(3));
    assert_eq!(storage.get::<u32>(b"a\x00"), Some(4));
    assert_eq!(storage.get::<u32>(b"b"), None);
    assert_eq!(storage.len(), 4);
}

#[test]
fn kill_unsets_and_is_idempotent() {
    let mut storage = MemoryStorage::new();
    storage.put(b"a", &7u32);
    storage.put(b"b", &8u32);
    storage.put(b"c", &9u32);
    storage.kill(b"b");
    assert!(!storage.is_set(b"b"));
    assert_eq!(storage.get::<u32>(b"a"), Some(7));
    assert_eq!(storage.get::<u32>(b"c"), Some(9));
    assert_eq!(storage.len(), 2);
    storage.kill(b"b");
    storage.kill(b"never set");
    assert_eq!(storage.len(), 2);
    assert_eq!(storage.get::<u32>(b"a"), Some(7));
    assert_eq!(storage.get::<u32>(b"c"), Some(9));
}

#[test]
fn require_reads_a_set_key() {
    let mut storage = MemoryStorage::new();
    storage.put(b"a", &100_000u32);
    assert_eq!(storage.require::<u32>(b"a"), 100_000);
}

#[test]
fn get_or_default_defaults_an_unset_key() {
    let mut storage = MemoryStorage::new();
    assert_eq!(storage.get_or_default::<u32>(b"a"), 0);
    assert_eq!(storage.get_or_default::<u64>(b"a"), 0);
    storage.put(b"a", &5u32);
    assert_eq!(storage.get_or_default::<u32>(b"a"), 5);
    assert!(!storage.is_set(b"b"));
}

#[test]
fn take_reads_then_unsets() {
    let mut storage = MemoryStorage::new();
    assert_eq!(storage.take::<u32>(b"a"), None);
    storage.put(b"a", &5u32);
    storage.put(b"b", &6u32);
    assert_eq!(storage.take::<u32>(b"a"), Some(5));
    assert!(!storage.is_set(b"a"));
    assert_eq!(storage.take::<u32>(b"a"), None);
    assert_eq!(storage.get::<u32>(b"b"), Some(6));
}

#[test]
fn take_or_panic_reads_then_unsets() {
    let mut storage = MemoryStorage::new();
    storage.put(b"a", &5u64);
    assert_eq!(storage.take_or_panic::<u64>(b"a"), 5);
    assert!(!storage.is_set(b"a"));
}

#[test]
fn take_or_default_reads_then_unsets() {
    let mut storage = MemoryStorage::new();
    assert_eq!(storage.take_or_default::<u32>(b"a"), 0);
    storage.put(b"a", &5u32);
    assert_eq!(storage.take_or_default::<u32>(b"a"), 5);
    assert!(!storage.is_set(b"a"));
    assert_eq!(storage.take_or_default::<u32>(b"a"), 0);
}

#[test]
fn raw_bytes_are_read_from_the_front() {
    let mut storage = MemoryStorage::new();
    storage.put_raw(b"a", &[1, 0, 0, 0, 9, 9]);
    assert_eq!(storage.get::<u32>(b"a"), Some(1));
    assert_eq!(storage.get_raw(b"a"), Some(vec![1, 0, 0, 0, 9, 9]));
    storage.put_raw(b"a", &[2, 0, 0, 0]);
    assert_eq!(storage.get::<u32>(b"a"), Some(2));
    assert_eq!(storage.len(), 1);
}
