//! Field-wise binary marshaling of storage values.
//!
//! A storage declaration is an ordered list of typed fields.  A value is
//! encoded as the concatenation of its fields' encodings, in declared
//! order: booleans as one byte (`0x00`/`0x01`), unsigned integers in
//! little-endian order at their fixed width, and byte arrays verbatim.
//! Decoding parses the same fields back in order, rejecting a buffer that
//! is too short or holds a malformed boolean; trailing bytes are ignored.

use vstd::bytes::{
    spec_u128_from_le_bytes, spec_u128_to_le_bytes, spec_u32_from_le_bytes, spec_u32_to_le_bytes,
    spec_u64_from_le_bytes, spec_u64_to_le_bytes, u128_from_le_bytes, u128_to_le_bytes,
    u32_from_le_bytes, u32_to_le_bytes, u64_from_le_bytes, u64_to_le_bytes,
    lemma_auto_spec_u128_to_from_le_bytes, lemma_auto_spec_u32_to_from_le_bytes,
    lemma_auto_spec_u64_to_from_le_bytes,
};
use vstd::prelude::*;
use vstd::slice::slice_subrange;

verus! {

/// The type of one storage or argument field.
#[derive(Clone, Copy, Debug, PartialEq, Eq, Structural)]
pub enum FieldType {
    Bool,
    U32,
    U64,
    U128,
    Bytes20,
    Bytes32,
}

/// One field's value, as held and passed by executable code.
#[derive(Clone, Copy, Debug, PartialEq, Eq)]
pub enum FieldValue {
    Bool(bool),
    U32(u32),
    U64(u64),
    U128(u128),
    Bytes20([u8; 20]),
    Bytes32([u8; 32]),
}

/// The mathematical model of a field value: byte arrays become sequences.
pub enum Value {
    Bool(bool),
    U32(u32),
    U64(u64),
    U128(u128),
    Bytes20(Seq<u8>),
    Bytes32(Seq<u8>),
}

impl View for FieldValue {
    type V = Value;

    open spec fn view(&self) -> Value {
        match self {
            FieldValue::Bool(b) => Value::Bool(*b),
            FieldValue::U32(x) => Value::U32(*x),
            FieldValue::U64(x) => Value::U64(*x),
            FieldValue::U128(x) => Value::U128(*x),
            FieldValue::Bytes20(a) => Value::Bytes20(a@),
            FieldValue::Bytes32(a) => Value::Bytes32(a@),
        }
    }
}

/// The models of a sequence of field values.
pub open spec fn views(s: Seq<FieldValue>) -> Seq<Value> {
    s.map_values(|v: FieldValue| v@)
}

/// The type a value belongs to.
pub open spec fn type_of(v: Value) -> FieldType {
    match v {
        Value::Bool(_) => FieldType::Bool,
        Value::U32(_) => FieldType::U32,
        Value::U64(_) => FieldType::U64,
        Value::U128(_) => FieldType::U128,
        Value::Bytes20(_) => FieldType::Bytes20,
        Value::Bytes32(_) => FieldType::Bytes32,
    }
}

/// A value's byte sequences have the length its type fixes.
pub open spec fn wf_value(v: Value) -> bool {
    match v {
        Value::Bytes20(s) => s.len() == 20,
        Value::Bytes32(s) => s.len() == 32,
        _ => true,
    }
}

/// The encoded width of a field type, in bytes.
pub open spec fn width(t: FieldType) -> nat {
    match t {
        FieldType::Bool => 1,
        FieldType::U32 => 4,
        FieldType::U64 => 8,
        FieldType::U128 => 16,
        FieldType::Bytes20 => 20,
        FieldType::Bytes32 => 32,
    }
}

/// The schema a value sequence instantiates: its types, in order.
pub open spec fn schema_of(vs: Seq<Value>) -> Seq<FieldType> {
    vs.map_values(|v: Value| type_of(v))
}

/// A value sequence instantiates a schema when lengths and types line up
/// and every value is well formed.
pub open spec fn matches_schema(vs: Seq<Value>, ts: Seq<FieldType>) -> bool {
    &&& vs.len() == ts.len()
    &&& forall|i: int| 0 <= i < vs.len() ==> type_of(#[trigger] vs[i]) == ts[i]
    &&& forall|i: int| 0 <= i < vs.len() ==> wf_value(#[trigger] vs[i])
}

/// The default value of a field type: false, zero, or all-zero bytes.
pub open spec fn spec_default_value(t: FieldType) -> Value {
    match t {
        FieldType::Bool => Value::Bool(false),
        FieldType::U32 => Value::U32(0),
        FieldType::U64 => Value::U64(0),
        FieldType::U128 => Value::U128(0),
        FieldType::Bytes20 => Value::Bytes20(Seq::new(20, |i: int| 0u8)),
        FieldType::Bytes32 => Value::Bytes32(Seq::new(32, |i: int| 0u8)),
    }
}

/// The field-wise default of a schema.
pub open spec fn spec_defaults(ts: Seq<FieldType>) -> Seq<Value> {
    ts.map_values(|t: FieldType| spec_default_value(t))
}

/// The encoding of one value.
pub open spec fn spec_encode_value(v: Value) -> Seq<u8> {
    match v {
        Value::Bool(b) => seq![if b { 1u8 } else { 0u8 }],
        Value::U32(x) => spec_u32_to_le_bytes(x),
        Value::U64(x) => spec_u64_to_le_bytes(x),
        Value::U128(x) => spec_u128_to_le_bytes(x),
        Value::Bytes20(s) => s,
        Value::Bytes32(s) => s,
    }
}

/// The encoding of a value sequence: field encodings concatenated in order.
pub open spec fn spec_encode_fields(vs: Seq<Value>) -> Seq<u8>
    decreases vs.len(),
{
    if vs.len() == 0 {
        Seq::empty()
    } else {
        spec_encode_value(vs[0]) + spec_encode_fields(vs.drop_first())
    }
}

/// Decode one value of type `t` from the front of `bytes`.
pub open spec fn spec_decode_value(t: FieldType, bytes: Seq<u8>) -> Option<Value> {
    if bytes.len() < width(t) {
        None
    } else {
        match t {
            FieldType::Bool => if bytes[0] == 0u8 {
                Some(Value::Bool(false))
            } else if bytes[0] == 1u8 {
                Some(Value::Bool(true))
            } else {
                None
            },
            FieldType::U32 => Some(Value::U32(spec_u32_from_le_bytes(bytes.take(4)))),
            FieldType::U64 => Some(Value::U64(spec_u64_from_le_bytes(bytes.take(8)))),
            FieldType::U128 => Some(Value::U128(spec_u128_from_le_bytes(bytes.take(16)))),
            FieldType::Bytes20 => Some(Value::Bytes20(bytes.take(20))),
            FieldType::Bytes32 => Some(Value::Bytes32(bytes.take(32))),
        }
    }
}

/// Decode a schema's fields in order from the front of `bytes`.
/// Trailing bytes after the last field are ignored.
pub open spec fn spec_decode_fields(ts: Seq<FieldType>, bytes: Seq<u8>) -> Option<Seq<Value>>
    decreases ts.len(),
{
    if ts.len() == 0 {
        Some(Seq::empty())
    } else {
        match spec_decode_value(ts[0], bytes) {
            Option::None => None,
            Option::Some(v) => match spec_decode_fields(
                ts.drop_first(),
                bytes.skip(width(ts[0]) as int),
            ) {
                Option::None => None,
                Option::Some(rest) => Some(seq![v] + rest),
            },
        }
    }
}

/// A successful decode yields values that instantiate the schema.
pub proof fn lemma_decode_matches_schema(ts: Seq<FieldType>, bytes: Seq<u8>)
    ensures
        spec_decode_fields(ts, bytes) matches Some(vs) ==> matches_schema(vs, ts),
    decreases ts.len(),
{
    if ts.len() > 0 {
        match spec_decode_value(ts[0], bytes) {
            Option::Some(v) => {
                lemma_decode_matches_schema(ts.drop_first(), bytes.skip(width(ts[0]) as int));
                match spec_decode_fields(ts.drop_first(), bytes.skip(width(ts[0]) as int)) {
                    Option::Some(rest) => {
                        let vs = seq![v] + rest;
                        assert forall|i: int| 0 <= i < vs.len() implies type_of(#[trigger] vs[i])
                            == ts[i] && wf_value(vs[i]) by {
                            if i > 0 {
                                assert(vs[i] == rest[i - 1]);
                                assert(ts[i] == ts.drop_first()[i - 1]);
                            }
                        }
                    },
                    Option::None => (),
                }
            },
            Option::None => (),
        }
    }
}

/// The field-wise default instantiates its schema.
pub proof fn lemma_defaults_match_schema(ts: Seq<FieldType>)
    ensures
        matches_schema(spec_defaults(ts), ts),
{
}

/// An encoding's length is its type's width.
pub proof fn lemma_encode_width(v: Value)
    requires
        wf_value(v),
    ensures
        spec_encode_value(v).len() == width(type_of(v)),
{
    match v {
        Value::U32(x) => lemma_auto_spec_u32_to_from_le_bytes(),
        Value::U64(x) => lemma_auto_spec_u64_to_from_le_bytes(),
        Value::U128(x) => lemma_auto_spec_u128_to_from_le_bytes(),
        _ => (),
    }
}

/// Decoding reads back what encoding wrote, even with bytes appended:
/// one value's round trip.
pub proof fn lemma_value_round_trip(v: Value, rest: Seq<u8>)
    requires
        wf_value(v),
    ensures
        spec_decode_value(type_of(v), spec_encode_value(v) + rest) == Some(v),
{
    let enc = spec_encode_value(v);
    lemma_encode_width(v);
    assert((enc + rest).take(enc.len() as int) =~= enc);
    match v {
        Value::Bool(b) => {
            assert((enc + rest)[0] == enc[0]);
        },
        Value::U32(x) => {
            lemma_auto_spec_u32_to_from_le_bytes();
        },
        Value::U64(x) => {
            lemma_auto_spec_u64_to_from_le_bytes();
        },
        Value::U128(x) => {
            lemma_auto_spec_u128_to_from_le_bytes();
        },
        _ => (),
    }
}

/// Round trip: decoding an encoded value sequence against its own schema
/// yields the sequence itself, even with bytes appended.
pub proof fn lemma_fields_round_trip_padded(vs: Seq<Value>, rest: Seq<u8>)
    requires
        forall|i: int| 0 <= i < vs.len() ==> wf_value(#[trigger] vs[i]),
    ensures
        spec_decode_fields(schema_of(vs), spec_encode_fields(vs) + rest) == Some(vs),
    decreases vs.len(),
{
    let ts = schema_of(vs);
    if vs.len() == 0 {
        assert(ts.len() == 0);
    } else {
        let v = vs[0];
        let enc = spec_encode_value(v);
        let tail = spec_encode_fields(vs.drop_first());
        lemma_encode_width(v);
        assert(spec_encode_fields(vs) + rest =~= enc + (tail + rest));
        lemma_value_round_trip(v, tail + rest);
        assert((enc + (tail + rest)).skip(enc.len() as int) =~= tail + rest);
        assert(ts.drop_first() =~= schema_of(vs.drop_first()));
        lemma_fields_round_trip_padded(vs.drop_first(), rest);
        assert(seq![v] + vs.drop_first() =~= vs);
    }
}

/// Round trip: for every well-formed value sequence `vs`,
/// decoding `spec_encode_fields(vs)` against its schema yields `vs`.
pub proof fn lemma_fields_round_trip(vs: Seq<Value>)
    requires
        forall|i: int| 0 <= i < vs.len() ==> wf_value(#[trigger] vs[i]),
    ensures
        spec_decode_fields(schema_of(vs), spec_encode_fields(vs)) == Some(vs),
{
    lemma_fields_round_trip_padded(vs, Seq::empty());
    assert(spec_encode_fields(vs) + Seq::<u8>::empty() =~= spec_encode_fields(vs));
}

/// Encode one field value.
pub fn encode_value(v: &FieldValue) -> (r: Vec<u8>)
    ensures
        r@ == spec_encode_value(v@),
{
    match v {
        FieldValue::Bool(b) => {
            let byte: u8 = if *b {
                1
            } else {
                0
            };
            let r = vec![byte];
            proof {
                assert(r@ =~= spec_encode_value(v@));
            }
            r
        },
        FieldValue::U32(x) => u32_to_le_bytes(*x),
        FieldValue::U64(x) => u64_to_le_bytes(*x),
        FieldValue::U128(x) => u128_to_le_bytes(*x),
        FieldValue::Bytes20(a) => {
            let mut r: Vec<u8> = Vec::new();
            let mut i: usize = 0;
            while i < 20
                invariant
                    i <= 20,
                    r@ =~= a@.take(i as int),
                decreases 20 - i,
            {
                r.push(a[i]);
                i = i + 1;
            }
            proof {
                assert(r@ =~= a@);
            }
            r
        },
        FieldValue::Bytes32(a) => {
            let mut r: Vec<u8> = Vec::new();
            let mut i: usize = 0;
            while i < 32
                invariant
                    i <= 32,
                    r@ =~= a@.take(i as int),
                decreases 32 - i,
            {
                r.push(a[i]);
                i = i + 1;
            }
            proof {
                assert(r@ =~= a@);
            }
            r
        },
    }
}

/// Encode a value sequence: field encodings concatenated in order.
pub fn encode_fields(vs: &Vec<FieldValue>) -> (r: Vec<u8>)
    ensures
        r@ == spec_encode_fields(views(vs@)),
{
    let mut r: Vec<u8> = Vec::new();
    let mut i: usize = 0;
    while i < vs.len()
        invariant
            i <= vs@.len(),
            r@ == spec_encode_fields(views(vs@.take(i as int))),
        decreases vs@.len() - i,
    {
        let mut enc = encode_value(&vs[i]);
        r.append(&mut enc);
        proof {
            lemma_encode_snoc(views(vs@.take(i as int)), vs@[i as int]@);
            assert(views(vs@.take(i + 1)) =~= views(vs@.take(i as int)).push(vs@[i as int]@));
        }
        i = i + 1;
    }
    proof {
        assert(vs@.take(vs@.len() as int) =~= vs@);
    }
    r
}

/// Appending one value to a sequence appends its encoding.
proof fn lemma_encode_snoc(vs: Seq<Value>, v: Value)
    ensures
        spec_encode_fields(vs.push(v)) == spec_encode_fields(vs) + spec_encode_value(v),
    decreases vs.len(),
{
    if vs.len() == 0 {
        assert(vs.push(v)[0] == v);
        assert(vs.push(v).drop_first() =~= vs);
        assert(spec_encode_fields(vs.push(v)) == spec_encode_value(v) + spec_encode_fields(vs));
        assert(spec_encode_value(v) + Seq::<u8>::empty() =~= spec_encode_value(v));
        assert(Seq::<u8>::empty() + spec_encode_value(v) =~= spec_encode_value(v));
    } else {
        assert(vs.push(v)[0] == vs[0]);
        assert(vs.push(v).drop_first() =~= vs.drop_first().push(v));
        lemma_encode_snoc(vs.drop_first(), v);
        assert(spec_encode_value(vs[0]) + (spec_encode_fields(vs.drop_first())
            + spec_encode_value(v)) =~= (spec_encode_value(vs[0]) + spec_encode_fields(
            vs.drop_first(),
        )) + spec_encode_value(v));
    }
}

/// Decode one value of type `t` from a window holding exactly its width.
fn decode_value_exact(t: FieldType, bytes: &[u8]) -> (r: Option<FieldValue>)
    requires
        bytes@.len() == width(t),
    ensures
        match r {
            Option::Some(v) => spec_decode_value(t, bytes@) == Some(v@),
            Option::None => spec_decode_value(t, bytes@) is None,
        },
{
    match t {
        FieldType::Bool => {
            let b = bytes[0];
            if b == 0 {
                Some(FieldValue::Bool(false))
            } else if b == 1 {
                Some(FieldValue::Bool(true))
            } else {
                None
            }
        },
        FieldType::U32 => {
            let x = u32_from_le_bytes(bytes);
            proof {
                assert(bytes@.take(4) =~= bytes@);
            }
            Some(FieldValue::U32(x))
        },
        FieldType::U64 => {
            let x = u64_from_le_bytes(bytes);
            proof {
                assert(bytes@.take(8) =~= bytes@);
            }
            Some(FieldValue::U64(x))
        },
        FieldType::U128 => {
            let x = u128_from_le_bytes(bytes);
            proof {
                assert(bytes@.take(16) =~= bytes@);
            }
            Some(FieldValue::U128(x))
        },
        FieldType::Bytes20 => {
            let mut a = [0u8; 20];
            let mut i: usize = 0;
            while i < 20
                invariant
                    bytes@.len() == 20,
                    i <= 20,
                    forall|j: int| 0 <= j < i ==> a@[j] == bytes@[j],
                decreases 20 - i,
            {
                a[i] = bytes[i];
                i = i + 1;
            }
            proof {
                assert(a@ =~= bytes@.take(20));
            }
            Some(FieldValue::Bytes20(a))
        },
        FieldType::Bytes32 => {
            let mut a = [0u8; 32];
            let mut i: usize = 0;
            while i < 32
                invariant
                    bytes@.len() == 32,
                    i <= 32,
                    forall|j: int| 0 <= j < i ==> a@[j] == bytes@[j],
                decreases 32 - i,
            {
                a[i] = bytes[i];
                i = i + 1;
            }
            proof {
                assert(a@ =~= bytes@.take(32));
            }
            Some(FieldValue::Bytes32(a))
        },
    }
}

/// Decode one value of type `t` from the front of `bytes`.
pub fn decode_value(t: FieldType, bytes: &[u8]) -> (r: Option<FieldValue>)
    ensures
        match r {
            Option::Some(v) => spec_decode_value(t, bytes@) == Some(v@),
            Option::None => spec_decode_value(t, bytes@) is None,
        },
{
    let w = field_width(t);
    if bytes.len() < w {
        return None;
    }
    let window = slice_subrange(bytes, 0, w);
    proof {
        assert(window@ =~= bytes@.take(w as int));
        lemma_decode_value_take(t, bytes@);
    }
    decode_value_exact(t, window)
}

/// The executable width of a field type.
pub fn field_width(t: FieldType) -> (w: usize)
    ensures
        w == width(t),
{
    match t {
        FieldType::Bool => 1,
        FieldType::U32 => 4,
        FieldType::U64 => 8,
        FieldType::U128 => 16,
        FieldType::Bytes20 => 20,
        FieldType::Bytes32 => 32,
    }
}

/// Decode a schema's fields in order from the front of `bytes`.
/// Returns `None` exactly when the specification-level decode rejects.
pub fn decode_fields(ts: &Vec<FieldType>, bytes: &[u8]) -> (r: Option<Vec<FieldValue>>)
    ensures
        match r {
            Option::Some(vs) => spec_decode_fields(ts@, bytes@) == Some(views(vs@)),
            Option::None => spec_decode_fields(ts@, bytes@) is None,
        },
{
    let mut acc: Vec<FieldValue> = Vec::new();
    let mut off: usize = 0;
    let mut i: usize = 0;
    proof {
        assert(ts@.skip(0) =~= ts@);
        assert(bytes@.skip(0) =~= bytes@);
        assert(forall|rest: Seq<Value>| (views(acc@) + rest) =~= rest);
    }
    while i < ts.len()
        invariant
            i <= ts@.len(),
            off <= bytes@.len(),
            acc@.len() == i,
            spec_decode_fields(ts@, bytes@) == match spec_decode_fields(
                ts@.skip(i as int),
                bytes@.skip(off as int),
            ) {
                Option::None => Option::<Seq<Value>>::None,
                Option::Some(rest) => Option::Some(views(acc@) + rest),
            },
        decreases ts@.len() - i,
    {
        let t = ts[i];
        let w = field_width(t);
        proof {
            assert(ts@.skip(i as int)[0] == ts@[i as int]);
        }
        if bytes.len() - off < w {
            proof {
                assert(spec_decode_value(t, bytes@.skip(off as int)) is None);
            }
            return None;
        }
        let window = slice_subrange(bytes, off, off + w);
        proof {
            assert(window@ =~= bytes@.skip(off as int).take(w as int));
            lemma_decode_value_take(t, bytes@.skip(off as int));
        }
        match decode_value_exact(t, window) {
            Option::None => {
                return None;
            },
            Option::Some(v) => {
                acc.push(v);
                proof {
                    let old_off = off as int;
                    let s = bytes@.skip(old_off);
                    assert(ts@.skip(i as int).drop_first() =~= ts@.skip(i + 1));
                    assert(s.skip(w as int) =~= bytes@.skip(old_off + w));
                    assert(views(acc@) =~= views(acc@.drop_last()).push(v@));
                    assert(forall|rest: Seq<Value>|
                        views(acc@.drop_last()) + (seq![v@] + rest) =~= views(acc@) + rest);
                }
                off = off + w;
            },
        }
        i = i + 1;
    }
    proof {
        assert(ts@.skip(ts@.len() as int) =~= Seq::<FieldType>::empty());
        assert(views(acc@) + Seq::<Value>::empty() =~= views(acc@));
    }
    Some(acc)
}

/// Decoding a value looks only at the first `width(t)` bytes.
proof fn lemma_decode_value_take(t: FieldType, bytes: Seq<u8>)
    requires
        bytes.len() >= width(t),
    ensures
        spec_decode_value(t, bytes.take(width(t) as int)) == spec_decode_value(t, bytes),
{
    let w = width(t) as int;
    let front = bytes.take(w);
    assert(front[0] == bytes[0]);
    if w >= 4 {
        assert(front.take(4) =~= bytes.take(4));
    }
    if w >= 8 {
        assert(front.take(8) =~= bytes.take(8));
    }
    if w >= 16 {
        assert(front.take(16) =~= bytes.take(16));
    }
    if w >= 20 {
        assert(front.take(20) =~= bytes.take(20));
    }
    if w >= 32 {
        assert(front.take(32) =~= bytes.take(32));
    }
}

/// The executable default value of a field type.
pub fn default_value(t: FieldType) -> (v: FieldValue)
    ensures
        v@ == spec_default_value(t),
{
    match t {
        FieldType::Bool => FieldValue::Bool(false),
        FieldType::U32 => FieldValue::U32(0),
        FieldType::U64 => FieldValue::U64(0),
        FieldType::U128 => FieldValue::U128(0),
        FieldType::Bytes20 => {
            let v = FieldValue::Bytes20([0u8; 20]);
            proof {
                assert(v@->Bytes20_0 =~= spec_default_value(FieldType::Bytes20)->Bytes20_0);
            }
            v
        },
        FieldType::Bytes32 => {
            let v = FieldValue::Bytes32([0u8; 32]);
            proof {
                assert(v@->Bytes32_0 =~= spec_default_value(FieldType::Bytes32)->Bytes32_0);
            }
            v
        },
    }
}

/// The field-wise default of a schema.
pub fn default_fields(ts: &Vec<FieldType>) -> (vs: Vec<FieldValue>)
    ensures
        views(vs@) == spec_defaults(ts@),
{
    let mut vs: Vec<FieldValue> = Vec::new();
    let mut i: usize = 0;
    while i < ts.len()
        invariant
            i <= ts@.len(),
            vs@.len() == i,
            forall|j: int| 0 <= j < i ==> (#[trigger] vs@[j])@ == spec_default_value(ts@[j]),
        decreases ts@.len() - i,
    {
        vs.push(default_value(ts[i]));
        i = i + 1;
    }
    proof {
        assert(views(vs@) =~= spec_defaults(ts@));
    }
    vs
}

} // verus!
