//! Running the flipper against an in-memory backend: dispatch, storage
//! round trips, default-on-miss, and the fixed reverts.

use pvm_contracts::arena::PvmAllocator;
use pvm_contracts::backend::MemoryBackend;
use pvm_contracts::codec::{FieldType, FieldValue};
use pvm_contracts::entry::{run_deploy, wrapper_prologue, Outcome};
use pvm_contracts::flipper::{flipper_call, flipper_deploy, flipper_module, flipper_storage_key};
use pvm_contracts::generate::{generate, WrapperShape};
use pvm_contracts::keys::compute_selector;
use pvm_contracts::module::StateRef;
use pvm_contracts::storage::get_storage_raw;

fn call_with(backend: &mut MemoryBackend, input: &[u8]) -> Outcome {
    let mut arena = PvmAllocator::new();
    flipper_call(backend, &mut arena, input)
}

#[test]
fn deploy_persists_the_initial_state() {
    let mut backend = MemoryBackend::new();
    let mut arena = PvmAllocator::new();
    let out = flipper_deploy(&mut backend, &mut arena);
    assert_eq!(out, Outcome::Return(Vec::new()));
    let key = flipper_storage_key();
    let stored = get_storage_raw(&backend, &key).expect("deploy wrote the state");
    assert_eq!(stored, vec![0u8]);
}

#[test]
fn get_on_empty_backend_returns_the_default() {
    // No deploy, nothing stored: load falls back to the field-wise
    // default and get returns false, never an error.
    let mut backend = MemoryBackend::new();
    let out = call_with(&mut backend, &compute_selector(b"get"));
    assert_eq!(out, Outcome::Return(vec![0u8]));
}

#[test]
fn flip_then_get_returns_the_toggled_byte() {
    let mut backend = MemoryBackend::new();
    let mut arena = PvmAllocator::new();
    flipper_deploy(&mut backend, &mut arena);

    let out = call_with(&mut backend, &compute_selector(b"flip"));
    assert_eq!(out, Outcome::Return(Vec::new()));

    let out = call_with(&mut backend, &compute_selector(b"get"));
    assert_eq!(out, Outcome::Return(vec![1u8]));

    let out = call_with(&mut backend, &compute_selector(b"flip"));
    assert_eq!(out, Outcome::Return(Vec::new()));

    let out = call_with(&mut backend, &compute_selector(b"get"));
    assert_eq!(out, Outcome::Return(vec![0u8]));
}

#[test]
fn flip_works_without_deploy() {
    // The first load before any save sees the default, so a flip on a
    // fresh backend stores true.
    let mut backend = MemoryBackend::new();
    call_with(&mut backend, &compute_selector(b"flip"));
    let out = call_with(&mut backend, &compute_selector(b"get"));
    assert_eq!(out, Outcome::Return(vec![1u8]));
}

#[test]
fn unknown_selector_reverts_without_mutation() {
    let mut backend = MemoryBackend::new();
    let mut arena = PvmAllocator::new();
    flipper_deploy(&mut backend, &mut arena);
    call_with(&mut backend, &compute_selector(b"flip"));

    // Four bytes matching no declared call.
    let mut junk = compute_selector(b"flip");
    junk[0] = junk[0].wrapping_add(1);
    let out = call_with(&mut backend, &junk);
    assert_eq!(out, Outcome::Revert(b"unknown selector".to_vec()));

    // Storage is untouched: get still sees the flipped value.
    let out = call_with(&mut backend, &compute_selector(b"get"));
    assert_eq!(out, Outcome::Return(vec![1u8]));
}

#[test]
fn short_input_reverts_before_selector_comparison() {
    let mut backend = MemoryBackend::new();
    for input in [&[][..], &[1u8][..], &[1, 2][..], &[1, 2, 3][..]] {
        let out = call_with(&mut backend, input);
        assert_eq!(out, Outcome::Revert(b"no selector".to_vec()));
    }
    // Nothing was written.
    let key = flipper_storage_key();
    assert!(get_storage_raw(&backend, &key).is_none());
}

#[test]
fn extra_input_bytes_after_the_selector_are_tolerated() {
    let mut backend = MemoryBackend::new();
    let mut input = compute_selector(b"get").to_vec();
    input.extend_from_slice(&[0xFF, 0xEE]);
    let out = call_with(&mut backend, &input);
    assert_eq!(out, Outcome::Return(vec![0u8]));
}

#[test]
fn generic_deploy_persists_the_constructor_value() {
    let plan = generate(flipper_module()).expect("generates");
    let storage = plan.storage.expect("storage plan");
    let mut backend = MemoryBackend::new();
    let mut arena = PvmAllocator::new();
    let out = run_deploy(
        &mut backend,
        &mut arena,
        &storage,
        &Some(vec![FieldValue::Bool(false)]),
    );
    assert_eq!(out, Outcome::Return(Vec::new()));
    assert_eq!(
        get_storage_raw(&backend, &storage.key).expect("wrote"),
        vec![0u8]
    );

    // Without a constructor, deploy leaves storage at its default.
    let mut bare = MemoryBackend::new();
    let out = run_deploy(&mut bare, &mut arena, &storage, &None);
    assert_eq!(out, Outcome::Return(Vec::new()));
    assert!(get_storage_raw(&bare, &storage.key).is_none());
}

#[test]
fn prologue_loads_only_for_stateful_shapes() {
    let mut backend = MemoryBackend::new();
    let mut arena = PvmAllocator::new();
    flipper_deploy(&mut backend, &mut arena);
    let key = flipper_storage_key();
    let schema = vec![FieldType::Bool];

    let none = wrapper_prologue(
        &backend,
        &key,
        &schema,
        WrapperShape { state: StateRef::Stateless, has_return: false },
    );
    assert!(none.is_none());

    let loaded = wrapper_prologue(
        &backend,
        &key,
        &schema,
        WrapperShape { state: StateRef::Shared, has_return: true },
    );
    assert_eq!(loaded, Some(vec![FieldValue::Bool(false)]));
}

#[test]
fn arena_is_reset_by_every_invocation() {
    let mut backend = MemoryBackend::new();
    let mut arena = PvmAllocator::new();
    pvm_contracts::arena::allocate(&mut arena, 100);
    assert_eq!(arena.offset, 100);
    flipper_call(&mut backend, &mut arena, &[1, 2, 3]);
    assert_eq!(arena.offset, 0);
    pvm_contracts::arena::allocate(&mut arena, 64);
    flipper_deploy(&mut backend, &mut arena);
    assert_eq!(arena.offset, 0);
}
