//! Lazy values, mappings and the raw storage layer.

use blake2::Digest;
use pvm_contracts::backend::MemoryBackend;
use pvm_contracts::codec::{encode_value, FieldType, FieldValue};
use pvm_contracts::storage::{
    contains_storage, get_storage, get_storage_raw, remove_storage, set_storage, set_storage_raw,
};
use pvm_contracts::storage_items::{hash_key, namespaced_key, raw_key, Lazy, Mapping};

#[test]
fn raw_storage_reads_back_the_latest_write() {
    let mut b = MemoryBackend::new();
    let key = raw_key([5u8; 32]);
    assert!(get_storage_raw(&b, &key).is_none());
    assert!(!contains_storage(&b, &key));
    set_storage_raw(&mut b, &key, &[1, 2, 3]);
    assert_eq!(get_storage_raw(&b, &key).unwrap(), vec![1, 2, 3]);
    set_storage_raw(&mut b, &key, &[9]);
    assert_eq!(get_storage_raw(&b, &key).unwrap(), vec![9]);
    assert!(contains_storage(&b, &key));
}

#[test]
fn remove_writes_the_empty_value() {
    let mut b = MemoryBackend::new();
    let key = [1u8; 32];
    set_storage(&mut b, &key, &FieldValue::U64(7));
    remove_storage(&mut b, &key);
    assert_eq!(get_storage_raw(&b, &key).unwrap(), Vec::<u8>::new());
    // The emptied value no longer decodes.
    assert_eq!(get_storage(&b, &key, FieldType::U64), None);
}

#[test]
fn typed_get_rejects_undecodable_bytes() {
    let mut b = MemoryBackend::new();
    let key = [2u8; 32];
    set_storage_raw(&mut b, &key, &[2]);  // not a valid boolean
    assert_eq!(get_storage(&b, &key, FieldType::Bool), None);
    set_storage_raw(&mut b, &key, &[1]);
    assert_eq!(get_storage(&b, &key, FieldType::Bool), Some(FieldValue::Bool(true)));
}

#[test]
fn hash_key_is_the_blake2s_digest() {
    let k = hash_key(b"counter");
    let digest = blake2::Blake2s256::digest(b"counter");
    assert_eq!(&k[..], &digest[..]);
}

#[test]
fn lazy_value_round_trips() {
    let mut b = MemoryBackend::new();
    let counter = Lazy::new(b"counter", FieldType::U64);
    assert_eq!(counter.get(&b), None);
    assert!(!counter.has_value(&b));
    counter.set(&mut b, &FieldValue::U64(42));
    assert_eq!(counter.get(&b), Some(FieldValue::U64(42)));
    assert!(counter.has_value(&b));
    counter.clear(&mut b);
    assert_eq!(counter.get(&b), None);
}

#[test]
fn lazy_from_key_uses_the_key_unhashed() {
    let mut b = MemoryBackend::new();
    let key = [3u8; 32];
    let item = Lazy::from_key(key, FieldType::U32);
    item.set(&mut b, &FieldValue::U32(9));
    assert_eq!(get_storage(&b, &key, FieldType::U32), Some(FieldValue::U32(9)));
}

#[test]
fn mapping_entry_key_is_hash_of_namespace_and_encoded_key() {
    let balances = Mapping::new(b"balances", FieldType::Bytes20, FieldType::U128);
    let user = FieldValue::Bytes20([8u8; 20]);
    let entry = balances.storage_key(&user);

    // hash(namespace ++ encode(key)), namespace itself being hashed first.
    let ns = hash_key(b"balances");
    let mut data = ns.to_vec();
    data.extend_from_slice(&encode_value(&user));
    assert_eq!(entry, namespaced_key(&ns, &user));
    assert_eq!(&entry[..], &blake2::Blake2s256::digest(&data)[..]);
}

#[test]
fn mapping_isolates_distinct_keys() {
    let mut b = MemoryBackend::new();
    let m = Mapping::new(b"balances", FieldType::U64, FieldType::U128);
    let k1 = FieldValue::U64(1);
    let k2 = FieldValue::U64(2);
    m.insert(&mut b, &k1, &FieldValue::U128(100));
    m.insert(&mut b, &k2, &FieldValue::U128(200));
    assert_eq!(m.get(&b, &k1), Some(FieldValue::U128(100)));
    assert_eq!(m.get(&b, &k2), Some(FieldValue::U128(200)));
    assert_ne!(m.get(&b, &k1), m.get(&b, &k2));
    assert!(m.contains(&b, &k1));

    m.remove(&mut b, &k1);
    assert_eq!(m.get(&b, &k1), None);
    assert_eq!(m.get(&b, &k2), Some(FieldValue::U128(200)));
}

#[test]
fn mappings_under_distinct_namespaces_do_not_collide() {
    let mut b = MemoryBackend::new();
    let first = Mapping::new(b"a", FieldType::U64, FieldType::U64);
    let second = Mapping::new(b"b", FieldType::U64, FieldType::U64);
    let key = FieldValue::U64(7);
    first.insert(&mut b, &key, &FieldValue::U64(1));
    second.insert(&mut b, &key, &FieldValue::U64(2));
    assert_eq!(first.get(&b, &key), Some(FieldValue::U64(1)));
    assert_eq!(second.get(&b, &key), Some(FieldValue::U64(2)));
}
