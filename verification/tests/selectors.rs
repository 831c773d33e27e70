//! Selector and storage-key derivation.

use blake2::Digest;
use pvm_contracts::generate::event_topic;
use pvm_contracts::keys::{
    compute_selector, compute_storage_key, selector_from_name, storage_key,
};
use pvm_contracts::storage::{storage_key as parts_key, storage_key_const};

#[test]
fn selector_is_stable_across_repeated_computation() {
    let a = compute_selector(b"flip");
    let b = compute_selector(b"flip");
    assert_eq!(a, b);
    let k1 = compute_storage_key(b"Flipper");
    let k2 = compute_storage_key(b"Flipper");
    assert_eq!(k1, k2);
}

#[test]
fn selector_is_blake2s_prefix() {
    let digest = blake2::Blake2s256::digest(b"flip");
    let sel = compute_selector(b"flip");
    assert_eq!(&sel[..], &digest[0..4]);
    // Distinct names give distinct digests here.
    assert_ne!(compute_selector(b"flip"), compute_selector(b"get"));
    // The digest is not the name itself.
    assert_ne!(&sel[..], b"flip");
}

#[test]
fn storage_key_is_full_blake2s_digest() {
    let digest = blake2::Blake2s256::digest(b"Flipper");
    let key = compute_storage_key(b"Flipper");
    assert_eq!(&key[..], &digest[..]);
}

#[test]
fn selector_from_name_truncates_and_pads() {
    assert_eq!(selector_from_name(b"get"), [b'g', b'e', b't', 0]);
    assert_eq!(selector_from_name(b"flipper"), [b'f', b'l', b'i', b'p']);
    assert_eq!(selector_from_name(b""), [0, 0, 0, 0]);
}

#[test]
fn mixed_storage_key_of_empty_name_is_prefix_only() {
    let key = storage_key(b"");
    let mut expected = [0u8; 32];
    expected[0] = 0x70;
    expected[1] = 0x76;
    expected[2] = 0x6d;
    assert_eq!(key, expected);
}

#[test]
fn mixed_storage_key_of_one_byte() {
    // 'A' lands at index 0 and, shifted by its position 0, at index 7;
    // then the three-byte prefix is added in.
    let key = storage_key(b"A");
    let mut expected = [0u8; 32];
    expected[0] = 65u8.wrapping_add(0x70);
    expected[1] = 0x76;
    expected[2] = 0x6d;
    expected[7] = 65;
    assert_eq!(key, expected);
}

#[test]
fn spread_storage_key_lays_bytes_in_place() {
    let key = storage_key_const(b"ab");
    let mut expected = [0u8; 32];
    expected[0] = b'a';
    expected[1] = b'b';
    assert_eq!(key, expected);
}

#[test]
fn spread_storage_key_wraps_after_32_bytes() {
    let name: Vec<u8> = (0u8..40).collect();
    let key = storage_key_const(&name);
    let mut expected = [0u8; 32];
    for i in 0..32 {
        expected[i] = i as u8;
    }
    for i in 32..40 {
        expected[i % 32] ^= i as u8;
    }
    assert_eq!(key, expected);
}

#[test]
fn parts_key_mixes_by_part_and_offset() {
    let parts = vec![vec![1u8, 2u8], vec![3u8]];
    let key = parts_key(&parts);
    let mut expected = [0u8; 32];
    // part 0: bytes at (0*7+0)%32 and (0*7+1)%32
    expected[0] ^= 1;
    expected[1] ^= 2;
    // part 1: byte at (1*7+0)%32
    expected[7] ^= 3;
    assert_eq!(key, expected);
}

#[test]
fn event_topic_is_selector_then_zeros() {
    let topic = event_topic(b"Flipped");
    let sel = compute_selector(b"Flipped");
    assert_eq!(&topic[0..4], &sel[..]);
    assert!(topic[4..].iter().all(|&b| b == 0));
}
