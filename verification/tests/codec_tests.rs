//! Field marshaling: exact encodings, round trips, and agreement with the
//! SCALE codec on the leaf types.

use parity_scale_codec::Encode;
use pvm_contracts::codec::{
    decode_fields, decode_value, default_fields, default_value, encode_fields, encode_value,
    field_width, FieldType, FieldValue,
};

#[test]
fn bool_encodes_as_one_byte() {
    assert_eq!(encode_value(&FieldValue::Bool(false)), vec![0u8]);
    assert_eq!(encode_value(&FieldValue::Bool(true)), vec![1u8]);
}

#[test]
fn integers_encode_little_endian() {
    assert_eq!(
        encode_value(&FieldValue::U32(0x0403_0201)),
        vec![0x01, 0x02, 0x03, 0x04]
    );
    assert_eq!(
        encode_value(&FieldValue::U64(5)),
        vec![5, 0, 0, 0, 0, 0, 0, 0]
    );
}

#[test]
fn leaf_encodings_agree_with_scale() {
    assert_eq!(encode_value(&FieldValue::Bool(true)), true.encode());
    assert_eq!(encode_value(&FieldValue::U32(123456)), 123456u32.encode());
    assert_eq!(
        encode_value(&FieldValue::U64(0xDEAD_BEEF_CAFE)),
        0xDEAD_BEEF_CAFEu64.encode()
    );
    assert_eq!(
        encode_value(&FieldValue::U128(u128::MAX - 7)),
        (u128::MAX - 7).encode()
    );
    let addr = [7u8; 20];
    assert_eq!(encode_value(&FieldValue::Bytes20(addr)), addr.encode());
    let hash = [9u8; 32];
    assert_eq!(encode_value(&FieldValue::Bytes32(hash)), hash.encode());
}

#[test]
fn field_concatenation_agrees_with_scale_tuples() {
    let ours = encode_fields(&vec![FieldValue::U32(1), FieldValue::Bool(true)]);
    assert_eq!(ours, (1u32, true).encode());
    let ours3 = encode_fields(&vec![
        FieldValue::U64(42),
        FieldValue::U128(7),
        FieldValue::Bool(false),
    ]);
    assert_eq!(ours3, (42u64, 7u128, false).encode());
}

#[test]
fn round_trip_every_type() {
    let values = vec![
        FieldValue::Bool(true),
        FieldValue::U32(u32::MAX),
        FieldValue::U64(1),
        FieldValue::U128(u128::MAX),
        FieldValue::Bytes20([3u8; 20]),
        FieldValue::Bytes32([4u8; 32]),
    ];
    let schema = vec![
        FieldType::Bool,
        FieldType::U32,
        FieldType::U64,
        FieldType::U128,
        FieldType::Bytes20,
        FieldType::Bytes32,
    ];
    let encoded = encode_fields(&values);
    let decoded = decode_fields(&schema, &encoded).expect("decodes");
    assert_eq!(decoded, values);
}

#[test]
fn decode_ignores_trailing_bytes() {
    let mut encoded = encode_value(&FieldValue::U32(9));
    encoded.extend_from_slice(&[0xAA, 0xBB]);
    let decoded = decode_fields(&vec![FieldType::U32], &encoded).expect("decodes");
    assert_eq!(decoded, vec![FieldValue::U32(9)]);
}

#[test]
fn decode_rejects_short_buffer() {
    let schema = vec![FieldType::U64];
    assert_eq!(decode_fields(&schema, &[1, 2, 3]), None);
    assert_eq!(decode_value(FieldType::Bool, &[]), None);
}

#[test]
fn decode_rejects_malformed_bool() {
    assert_eq!(decode_value(FieldType::Bool, &[2]), None);
    assert_eq!(decode_value(FieldType::Bool, &[0]), Some(FieldValue::Bool(false)));
    assert_eq!(decode_value(FieldType::Bool, &[1]), Some(FieldValue::Bool(true)));
}

#[test]
fn defaults_are_field_wise_zero() {
    assert_eq!(default_value(FieldType::Bool), FieldValue::Bool(false));
    assert_eq!(default_value(FieldType::U128), FieldValue::U128(0));
    assert_eq!(default_value(FieldType::Bytes20), FieldValue::Bytes20([0u8; 20]));
    let schema = vec![FieldType::Bool, FieldType::U64];
    assert_eq!(
        default_fields(&schema),
        vec![FieldValue::Bool(false), FieldValue::U64(0)]
    );
}

#[test]
fn widths_match_encodings() {
    for t in [
        FieldType::Bool,
        FieldType::U32,
        FieldType::U64,
        FieldType::U128,
        FieldType::Bytes20,
        FieldType::Bytes32,
    ] {
        let v = default_value(t);
        assert_eq!(encode_value(&v).len(), field_width(t));
    }
}
