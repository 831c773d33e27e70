//! Addresses, the arena, host words, events and the chain configuration.

use pvm_contracts::account::{
    Address as AddressFormat, EvmAddress, SubstrateAddress as GenericSubstrate,
};
use pvm_contracts::address::{Address, SubstrateAddress};
use pvm_contracts::arena::{alloc_aligned, allocate, reset, PvmAllocator, BUFFER_SIZE};
use pvm_contracts::config::ChainConfig;
use pvm_contracts::events::emit;
use pvm_contracts::flipper::Flipped;
use pvm_contracts::generate::event_topic;
use pvm_contracts::words::{u128_from_word, u64_from_word, value_to_word};

#[test]
fn zero_addresses_are_zero() {
    assert!(Address::zero().is_zero());
    assert!(SubstrateAddress::zero().is_zero());
    let a = Address::from_bytes([1u8; 20]);
    assert!(!a.is_zero());
    assert_eq!(a.as_bytes(), &[1u8; 20]);
}

#[test]
fn address_bytes_can_be_written_in_place() {
    let mut a = Address::zero();
    a.as_bytes_mut()[0] = 0xAB;
    assert_eq!(a.as_bytes()[0], 0xAB);
    assert!(!a.is_zero());
}

#[test]
fn addresses_render_as_hex() {
    let mut bytes = [0u8; 20];
    bytes[0] = 0xDE;
    bytes[1] = 0xAD;
    bytes[19] = 0x01;
    let a = Address::from_bytes(bytes);
    assert_eq!(a.to_hex(), "0xdead000000000000000000000000000000000001");
    assert_eq!(
        SubstrateAddress::zero().to_hex(),
        format!("0x{}", "00".repeat(32))
    );
}

#[test]
fn widening_left_pads_and_narrowing_undoes_it() {
    let a = Address::from_bytes([9u8; 20]);
    let s = a.to_substrate();
    assert_eq!(&s.0[0..12], &[0u8; 12]);
    assert_eq!(&s.0[12..32], &[9u8; 20]);
    let back = s.to_evm().expect("narrows");
    assert_eq!(back.0, [9u8; 20]);
}

#[test]
fn narrowing_fails_on_a_nonzero_prefix() {
    let mut bytes = [0u8; 32];
    bytes[5] = 1;
    let s = SubstrateAddress::from_bytes(bytes);
    assert!(s.to_evm().is_none());
}

#[test]
fn generic_address_formats_report_their_length() {
    assert_eq!(EvmAddress::byte_len(), 20);
    assert_eq!(GenericSubstrate::byte_len(), 32);
    assert!(EvmAddress::zero().is_zero());
    assert!(!EvmAddress([1u8; 20]).is_zero());
}

#[test]
fn arena_bumps_and_resets() {
    let mut a = PvmAllocator::new();
    assert_eq!(a.capacity, BUFFER_SIZE);
    assert_eq!(allocate(&mut a, 10), Some(0));
    assert_eq!(allocate(&mut a, 5), Some(10));
    assert_eq!(a.offset, 15);
    reset(&mut a);
    assert_eq!(a.offset, 0);
}

#[test]
fn arena_aligns_allocations() {
    let mut a = PvmAllocator::new();
    allocate(&mut a, 3);
    let start = alloc_aligned(&mut a, 8, 8).expect("fits");
    assert_eq!(start, 8);
    assert_eq!(a.offset, 16);
    let start = alloc_aligned(&mut a, 1, 1).expect("fits");
    assert_eq!(start, 16);
}

#[test]
fn arena_exhaustion_is_an_empty_result() {
    let mut a = PvmAllocator::new();
    assert_eq!(allocate(&mut a, BUFFER_SIZE + 1), None);
    assert_eq!(a.offset, 0);
    assert_eq!(allocate(&mut a, BUFFER_SIZE), Some(0));
    assert_eq!(allocate(&mut a, 1), None);
}

#[test]
fn host_words_decode_big_endian_tails() {
    let mut w = [0u8; 32];
    w[24..32].copy_from_slice(&0xDEAD_BEEF_0102_0304u64.to_be_bytes());
    assert_eq!(u64_from_word(&w), 0xDEAD_BEEF_0102_0304);

    let mut w = [0u8; 32];
    w[16..32].copy_from_slice(&340_282_366_920_938u128.to_be_bytes());
    assert_eq!(u128_from_word(&w), 340_282_366_920_938);
}

#[test]
fn value_word_round_trips() {
    let w = value_to_word(123_456_789_000);
    assert_eq!(&w[0..16], &[0u8; 16]);
    assert_eq!(u128_from_word(&w), 123_456_789_000);
    assert_eq!(&w[16..32], &123_456_789_000u128.to_be_bytes());
}

#[test]
fn emitted_event_carries_one_derived_topic() {
    let e = Flipped { new_value: true };
    let emitted = emit(&e);
    assert_eq!(emitted.topics.len(), 1);
    assert_eq!(emitted.topics[0], event_topic(b"Flipped"));
    assert_eq!(emitted.data, vec![1u8]);
}

#[test]
fn chain_config_defaults_and_builders() {
    let c = ChainConfig::new();
    assert_eq!(c.relay_chain_command, "polkadot");
    assert_eq!(c.parachain_command, "polkadot-parachain");
    assert_eq!(c.bulletin_command, "polkadot-bulletin-chain");
    assert_eq!(
        c.people_runtime_path,
        "./runtime/people_rococo_runtime.compact.compressed.wasm"
    );

    let c = ChainConfig::default()
        .with_relay_chain_command("polkadot-dev".to_owned())
        .with_parachain_command("collator".to_owned())
        .with_asset_hub_runtime("./ah.wasm".to_owned())
        .with_people_runtime("./people.wasm".to_owned())
        .with_bridge_hub_runtime("./bh.wasm".to_owned())
        .with_yap_runtime("./yap.wasm".to_owned())
        .with_template_runtime("./tmpl.wasm".to_owned())
        .with_bulletin_command("bulletin".to_owned())
        .with_relay_chain_runtime("./relay.wasm".to_owned());
    assert_eq!(c.relay_chain_command, "polkadot-dev");
    assert_eq!(c.parachain_command, "collator");
    assert_eq!(c.asset_hub_runtime_path, "./ah.wasm");
    assert_eq!(c.people_runtime_path, "./people.wasm");
    assert_eq!(c.bridge_hub_runtime_path, "./bh.wasm");
    assert_eq!(c.yap_runtime_path, "./yap.wasm");
    assert_eq!(c.template_runtime_path, "./tmpl.wasm");
    assert_eq!(c.bulletin_command, "bulletin");
    assert_eq!(c.relay_chain_runtime_path, "./relay.wasm");
    // An untouched field keeps its default.
    assert_eq!(c.bridge_hub_command, "polkadot-parachain");
}
