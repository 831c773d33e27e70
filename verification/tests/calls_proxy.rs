//! Cross-contract requests, response decoding, and a proxy driving the
//! flipper end to end.

use pvm_contracts::address::Address;
use pvm_contracts::arena::PvmAllocator;
use pvm_contracts::backend::MemoryBackend;
use pvm_contracts::calls::{
    call, call_with_value, complete_call, decode_call_response, encode_call_data,
    ContractCallError, ContractRef,
};
use pvm_contracts::codec::{encode_value, FieldType, FieldValue};
use pvm_contracts::entry::Outcome;
use pvm_contracts::flipper::{flipper_call, flipper_module};
use pvm_contracts::generate::generate;
use pvm_contracts::keys::compute_selector;

#[test]
fn call_data_is_selector_then_args() {
    let data = encode_call_data([1, 2, 3, 4], &[9, 9]);
    assert_eq!(data, vec![1, 2, 3, 4, 9, 9]);
    let data = encode_call_data([1, 2, 3, 4], &[]);
    assert_eq!(data, vec![1, 2, 3, 4]);
}

#[test]
fn requests_carry_target_value_and_data() {
    let target = Address::from_bytes([7u8; 20]);
    let r = call(&target, [0, 0, 0, 1], &[5]);
    assert_eq!(r.target.0, [7u8; 20]);
    assert_eq!(r.value, 0);
    assert_eq!(r.data, vec![0, 0, 0, 1, 5]);

    let r = call_with_value(&target, 1000, [0, 0, 0, 2], &[]);
    assert_eq!(r.value, 1000);
    assert_eq!(r.data, vec![0, 0, 0, 2]);
}

#[test]
fn no_return_calls_surface_only_invocation_failure() {
    assert_eq!(complete_call(true), Ok(()));
    assert_eq!(complete_call(false), Err(ContractCallError::CallFailed));
}

#[test]
fn response_decoding_keeps_the_two_failure_kinds_apart() {
    // A failed invocation.
    assert_eq!(
        decode_call_response(&None, FieldType::Bool),
        Err(ContractCallError::CallFailed)
    );
    // A response that does not decode as the declared type.
    assert_eq!(
        decode_call_response(&Some(vec![2]), FieldType::Bool),
        Err(ContractCallError::DecodeFailed)
    );
    assert_eq!(
        decode_call_response(&Some(vec![]), FieldType::U64),
        Err(ContractCallError::DecodeFailed)
    );
    // A well-formed response.
    assert_eq!(
        decode_call_response(&Some(vec![1]), FieldType::Bool),
        Ok(FieldValue::Bool(true))
    );
}

#[test]
fn proxy_request_prefixes_the_selector() {
    let plan = generate(flipper_module()).expect("generates");
    let proxy = plan.proxy.expect("proxy");
    let target = ContractRef::new(Address::from_bytes([1u8; 20]));
    let r = target.request(&proxy.methods[0], &Vec::new());
    assert_eq!(r.data, compute_selector(b"flip").to_vec());
    assert_eq!(r.value, 0);
}

#[test]
fn proxy_request_encodes_arguments_in_order() {
    let target = ContractRef::new(Address::from_bytes([1u8; 20]));
    let method = pvm_contracts::generate::ProxyMethod {
        name: b"transfer".to_vec(),
        selector: [9, 9, 9, 9],
        args: vec![FieldType::Bytes20, FieldType::U128],
        arg_shape: pvm_contracts::generate::ArgShape::Tuple,
        has_return: false,
    };
    let to = FieldValue::Bytes20([2u8; 20]);
    let amount = FieldValue::U128(77);
    let r = target.request(&method, &vec![to, amount]);
    let mut expected = vec![9u8, 9, 9, 9];
    expected.extend_from_slice(&encode_value(&to));
    expected.extend_from_slice(&encode_value(&amount));
    assert_eq!(r.data, expected);
}

#[test]
fn proxy_drives_the_flipper_end_to_end() {
    // The callee: a flipper behind its own backend.
    let mut backend = MemoryBackend::new();
    let mut arena = PvmAllocator::new();

    // The caller's side: a proxy built from the same module.
    let plan = generate(flipper_module()).expect("generates");
    let proxy = plan.proxy.expect("proxy");
    let target = ContractRef::new(Address::from_bytes([3u8; 20]));

    // flip: send the request's data to the callee; it returns empty.
    let flip_req = target.request(&proxy.methods[0], &Vec::new());
    let out = flipper_call(&mut backend, &mut arena, &flip_req.data);
    assert_eq!(out, Outcome::Return(Vec::new()));

    // get: the response decodes as the declared boolean return type.
    let get_req = target.request(&proxy.methods[1], &Vec::new());
    let out = flipper_call(&mut backend, &mut arena, &get_req.data);
    let response = match out {
        Outcome::Return(d) => Some(d),
        Outcome::Revert(_) => None,
    };
    assert_eq!(
        decode_call_response(&response, FieldType::Bool),
        Ok(FieldValue::Bool(true))
    );
}
