//! Storage accessors: raw and typed reads and writes, and the load/save
//! marshaling emitted for a storage declaration.
//!
//! `load_storage` never fails: a missing key or an undecodable value yields
//! the schema's field-wise default, so the first load before any save is
//! well defined.  `save_storage` is an unconditional upsert of the whole
//! encoded value.

use crate::backend::MemoryBackend;
use crate::codec::{
    decode_fields, decode_value, encode_fields, encode_value, spec_decode_fields,
    spec_decode_value, spec_defaults, spec_encode_fields, spec_encode_value, default_fields,
    matches_schema, lemma_fields_round_trip, views, FieldType, FieldValue, Value,
};
use vstd::prelude::*;

verus! {

/// Read the raw bytes at `key`, `None` when the key holds nothing.
pub fn get_storage_raw(backend: &MemoryBackend, key: &[u8; 32]) -> (r: Option<Vec<u8>>)
    ensures
        match r {
            Option::Some(v) => backend@.contains_key(key@) && v@ == backend@[key@],
            Option::None => !backend@.contains_key(key@),
        },
{
    backend.get_raw(key)
}

/// Write raw bytes at `key`, inserting or overwriting.
pub fn set_storage_raw(backend: &mut MemoryBackend, key: &[u8; 32], value: &[u8])
    ensures
        final(backend)@ == old(backend)@.insert(key@, value@),
{
    backend.set_raw(key, value);
}

/// Clear `key` by writing the empty value over it.
pub fn remove_storage(backend: &mut MemoryBackend, key: &[u8; 32])
    ensures
        final(backend)@ == old(backend)@.insert(key@, Seq::<u8>::empty()),
{
    let empty: Vec<u8> = Vec::new();
    backend.set_raw(key, empty.as_slice());
}

/// Whether `key` holds a value.
pub fn contains_storage(backend: &MemoryBackend, key: &[u8; 32]) -> (r: bool)
    ensures
        r == backend@.contains_key(key@),
{
    backend.contains_key(key)
}

/// Read and decode one value of type `t` at `key`.  `None` when the key
/// holds nothing or the bytes do not decode as `t`.
pub fn get_storage(backend: &MemoryBackend, key: &[u8; 32], t: FieldType) -> (r: Option<
    FieldValue,
>)
    ensures
        match r {
            Option::Some(v) => backend@.contains_key(key@) && spec_decode_value(
                t,
                backend@[key@],
            ) == Some(v@),
            Option::None => !backend@.contains_key(key@) || spec_decode_value(
                t,
                backend@[key@],
            ) is None,
        },
{
    match backend.get_raw(key) {
        Option::Some(bytes) => decode_value(t, bytes.as_slice()),
        Option::None => None,
    }
}

/// Encode one value and write it at `key`.
pub fn set_storage(backend: &mut MemoryBackend, key: &[u8; 32], value: &FieldValue)
    ensures
        final(backend)@ == old(backend)@.insert(key@, spec_encode_value(value@)),
{
    let encoded = encode_value(value);
    backend.set_raw(key, encoded.as_slice());
}

/// What a load of `schema` at `key` sees in backend state `m`: the decoded
/// stored value, or the field-wise default when the key is empty or its
/// bytes do not decode.
pub open spec fn spec_load(m: Map<Seq<u8>, Seq<u8>>, key: Seq<u8>, ts: Seq<FieldType>) -> Seq<
    Value,
> {
    if m.contains_key(key) {
        match spec_decode_fields(ts, m[key]) {
            Option::Some(vs) => vs,
            Option::None => spec_defaults(ts),
        }
    } else {
        spec_defaults(ts)
    }
}

/// Load the storage value of `schema` stored at `key`.  Never an error:
/// on a missing key or a decode failure the field-wise default is returned,
/// so the first load before any save is well defined.
pub fn load_storage(backend: &MemoryBackend, key: &[u8; 32], schema: &Vec<FieldType>) -> (r: Vec<
    FieldValue,
>)
    ensures
        views(r@) == spec_load(backend@, key@, schema@),
        !backend@.contains_key(key@) ==> views(r@) == spec_defaults(schema@),
{
    match backend.get_raw(key) {
        Option::Some(bytes) => match decode_fields(schema, bytes.as_slice()) {
            Option::Some(vs) => vs,
            Option::None => default_fields(schema),
        },
        Option::None => default_fields(schema),
    }
}

/// Encode the storage value and write it at `key`, unconditionally.
pub fn save_storage(backend: &mut MemoryBackend, key: &[u8; 32], values: &Vec<FieldValue>)
    ensures
        final(backend)@ == old(backend)@.insert(key@, spec_encode_fields(views(values@))),
{
    let encoded = encode_fields(values);
    backend.set_raw(key, encoded.as_slice());
}

/// A load after a save reads back the saved value: in any backend state,
/// saving a value matching the schema and loading the same key returns it.
pub proof fn lemma_load_after_save(
    m: Map<Seq<u8>, Seq<u8>>,
    key: Seq<u8>,
    ts: Seq<FieldType>,
    vs: Seq<Value>,
)
    requires
        matches_schema(vs, ts),
    ensures
        spec_load(m.insert(key, spec_encode_fields(vs)), key, ts) == vs,
{
    lemma_fields_round_trip(vs);
    assert(crate::codec::schema_of(vs) =~= ts);
}

/// A load from a backend that holds nothing at the key returns the
/// schema's field-wise default, never an error.
pub proof fn lemma_load_default_on_miss(
    m: Map<Seq<u8>, Seq<u8>>,
    key: Seq<u8>,
    ts: Seq<FieldType>,
)
    requires
        !m.contains_key(key),
    ensures
        spec_load(m, key, ts) == spec_defaults(ts),
{
}

/// Whatever the backend holds, a load's result instantiates its schema:
/// decoded values and defaults both do.
pub proof fn lemma_load_matches_schema(m: Map<Seq<u8>, Seq<u8>>, key: Seq<u8>, ts: Seq<FieldType>)
    ensures
        matches_schema(spec_load(m, key, ts), ts),
{
    crate::codec::lemma_defaults_match_schema(ts);
    if m.contains_key(key) {
        crate::codec::lemma_decode_matches_schema(ts, m[key]);
    }
}

/// The accumulator after XOR-folding the first `i` parts wholly and `j`
/// bytes of part `i`, each byte at index `(part * 7 + offset) % 32`.
pub open spec fn spec_parts_fold(parts: Seq<Seq<u8>>, i: nat, j: nat) -> Seq<u8>
    decreases i, j,
{
    if j == 0 {
        if i == 0 {
            Seq::new(32, |k: int| 0u8)
        } else {
            spec_parts_fold(parts, (i - 1) as nat, parts[i - 1].len())
        }
    } else {
        let prev = spec_parts_fold(parts, i, (j - 1) as nat);
        let idx = (i * 7 + (j - 1)) as int % 32;
        prev.update(idx, prev[idx] ^ parts[i as int][j - 1])
    }
}

/// The 32-byte key mixed from a list of byte-string parts.
pub open spec fn spec_parts_key(parts: Seq<Seq<u8>>) -> Seq<u8> {
    spec_parts_fold(parts, parts.len(), 0)
}

/// The models of a list of byte-string parts.
pub open spec fn parts_views(parts: Seq<Vec<u8>>) -> Seq<Seq<u8>> {
    parts.map_values(|p: Vec<u8>| p@)
}

/// Derive a 32-byte storage key by XOR mixing several parts together.
/// Host-free and deterministic, but not cryptographic.
pub fn storage_key(parts: &Vec<Vec<u8>>) -> (key: [u8; 32])
    ensures
        key@ == spec_parts_key(parts_views(parts@)),
{
    let ghost ps = parts_views(parts@);
    let mut key = [0u8; 32];
    proof {
        assert(key@ =~= spec_parts_fold(ps, 0, 0));
    }
    let mut i: usize = 0;
    while i < parts.len()
        invariant
            i <= parts@.len(),
            ps == parts_views(parts@),
            key@ == spec_parts_fold(ps, i as nat, 0),
        decreases parts@.len() - i,
    {
        let part = &parts[i];
        let mut j: usize = 0;
        while j < part.len()
            invariant
                i < parts@.len(),
                j <= part@.len(),
                part@ == ps[i as int],
                ps == parts_views(parts@),
                key@ == spec_parts_fold(ps, i as nat, j as nat),
            decreases part@.len() - j,
        {
            let a = (i % 32) * 7 % 32;
            let idx = (a + j % 32) % 32;
            proof {
                vstd::arithmetic::div_mod::lemma_mul_mod_noop_left(i as int, 7, 32);
                vstd::arithmetic::div_mod::lemma_add_mod_noop(i as int * 7, j as int, 32);
                assert(idx as int == (i as int * 7 + j as int) % 32);
            }
            key[idx] = key[idx] ^ part[j];
            proof {
                assert(key@ =~= spec_parts_fold(ps, i as nat, (j + 1) as nat));
            }
            j = j + 1;
        }
        proof {
            assert(key@ == spec_parts_fold(ps, (i + 1) as nat, 0));
        }
        i = i + 1;
    }
    key
}

/// The accumulator after folding `n` bytes of a name: the first 32 bytes
/// are laid down in place, later bytes XOR onto the wrapped index.
pub open spec fn spec_spread_fold(name: Seq<u8>, n: nat) -> Seq<u8>
    decreases n,
{
    if n == 0 {
        Seq::new(32, |k: int| 0u8)
    } else {
        let prev = spec_spread_fold(name, (n - 1) as nat);
        let i = (n - 1) as int;
        if i < 32 {
            prev.update(i, name[i])
        } else {
            prev.update(i % 32, prev[i % 32] ^ name[i])
        }
    }
}

/// The 32-byte key a name spreads to.
pub open spec fn spec_spread_key(name: Seq<u8>) -> Seq<u8> {
    spec_spread_fold(name, name.len())
}

/// Derive a 32-byte storage key from one name by spreading its bytes
/// across the key and XOR-wrapping the remainder.
pub fn storage_key_const(name: &[u8]) -> (key: [u8; 32])
    ensures
        key@ == spec_spread_key(name@),
{
    let mut key = [0u8; 32];
    proof {
        assert(key@ =~= spec_spread_fold(name@, 0));
    }
    let mut i: usize = 0;
    while i < name.len()
        invariant
            i <= name@.len(),
            key@ == spec_spread_fold(name@, i as nat),
        decreases name@.len() - i,
    {
        if i < 32 {
            key[i] = name[i];
        } else {
            key[i % 32] = key[i % 32] ^ name[i];
        }
        proof {
            assert(key@ =~= spec_spread_fold(name@, (i + 1) as nat));
        }
        i = i + 1;
    }
    key
}

} // verus!
