//! Typed storage items: single values at a fixed key and key-value
//! mappings under a namespace.
//!
//! Both are stateless handles: no value is cached, every access
//! round-trips to the backend.  A `Mapping` owns a namespace and places
//! each entry at `hash(namespace ++ encode(key))`.

use crate::backend::MemoryBackend;
use crate::codec::{
    spec_decode_value, spec_encode_value, type_of, wf_value, FieldType, FieldValue, Value,
    lemma_value_round_trip,
};
use crate::hashing::{blake2s256, blake2s_hash, digest32};
use crate::storage::{contains_storage, get_storage, remove_storage, set_storage};
use vstd::prelude::*;

verus! {

/// Hash a byte string into a 32-byte storage key.
pub fn hash_key(data: &[u8]) -> (k: [u8; 32])
    ensures
        k@ == blake2s256(data@),
{
    let digest = blake2s_hash(data);
    digest32(&digest)
}

/// The entry key a namespace and an encoded key hash to.
pub open spec fn spec_namespaced_key(namespace: Seq<u8>, key: Value) -> Seq<u8> {
    blake2s256(namespace + spec_encode_value(key))
}

/// Hash a namespace together with an encoded key into one storage key.
pub fn namespaced_key(namespace: &[u8], key: &FieldValue) -> (k: [u8; 32])
    ensures
        k@ == spec_namespaced_key(namespace@, key@),
{
    let mut data: Vec<u8> = Vec::new();
    let mut i: usize = 0;
    while i < namespace.len()
        invariant
            i <= namespace@.len(),
            data@ =~= namespace@.take(i as int),
        decreases namespace@.len() - i,
    {
        data.push(namespace[i]);
        i = i + 1;
    }
    let mut encoded = crate::codec::encode_value(key);
    data.append(&mut encoded);
    proof {
        assert(data@ =~= namespace@ + spec_encode_value(key@));
    }
    hash_key(data.as_slice())
}

/// Use a pre-computed 32-byte array as a storage key, with no hashing.
pub fn raw_key(bytes: [u8; 32]) -> (k: [u8; 32])
    ensures
        k@ == bytes@,
{
    bytes
}

/// Read and decode the value of type `t` at `key`.
pub fn get(backend: &MemoryBackend, key: &[u8; 32], t: FieldType) -> (r: Option<FieldValue>)
    ensures
        match r {
            Option::Some(v) => backend@.contains_key(key@) && spec_decode_value(
                t,
                backend@[key@],
            ) == Some(v@),
            Option::None => !backend@.contains_key(key@) || spec_decode_value(
                t,
                backend@[key@],
            ) is None,
        },
{
    get_storage(backend, key, t)
}

/// Encode `value` and write it at `key`.
pub fn set(backend: &mut MemoryBackend, key: &[u8; 32], value: &FieldValue)
    ensures
        final(backend)@ == old(backend)@.insert(key@, spec_encode_value(value@)),
{
    set_storage(backend, key, value);
}

/// Clear `key` by writing the empty value over it.
pub fn remove(backend: &mut MemoryBackend, key: &[u8; 32])
    ensures
        final(backend)@ == old(backend)@.insert(key@, Seq::<u8>::empty()),
{
    remove_storage(backend, key);
}

/// Whether `key` holds a value.
pub fn contains(backend: &MemoryBackend, key: &[u8; 32]) -> (r: bool)
    ensures
        r == backend@.contains_key(key@),
{
    contains_storage(backend, key)
}

/// A single typed value stored at one fixed key.  Stateless: every access
/// goes to the backend.
#[derive(Clone, Copy)]
pub struct Lazy {
    /// The fixed storage key this item owns.
    pub key: [u8; 32],
    /// The type of the stored value.
    pub ty: FieldType,
}

impl Lazy {
    /// A value of type `ty` stored at the hash of `namespace`.
    pub fn new(namespace: &[u8], ty: FieldType) -> (l: Lazy)
        ensures
            l.key@ == blake2s256(namespace@),
            l.ty == ty,
    {
        Lazy { key: hash_key(namespace), ty }
    }

    /// A value of type `ty` stored at a pre-computed key.
    pub fn from_key(key: [u8; 32], ty: FieldType) -> (l: Lazy)
        ensures
            l.key@ == key@,
            l.ty == ty,
    {
        Lazy { key, ty }
    }

    /// Read the value: `None` when the key holds nothing or its bytes do
    /// not decode.
    pub fn get(&self, backend: &MemoryBackend) -> (r: Option<FieldValue>)
        ensures
            match r {
                Option::Some(v) => backend@.contains_key(self.key@) && spec_decode_value(
                    self.ty,
                    backend@[self.key@],
                ) == Some(v@),
                Option::None => !backend@.contains_key(self.key@) || spec_decode_value(
                    self.ty,
                    backend@[self.key@],
                ) is None,
            },
    {
        get(backend, &self.key, self.ty)
    }

    /// Write the value.
    pub fn set(&self, backend: &mut MemoryBackend, value: &FieldValue)
        requires
            type_of(value@) == self.ty,
        ensures
            final(backend)@ == old(backend)@.insert(self.key@, spec_encode_value(value@)),
    {
        set(backend, &self.key, value);
    }

    /// Clear the value.
    pub fn clear(&self, backend: &mut MemoryBackend)
        ensures
            final(backend)@ == old(backend)@.insert(self.key@, Seq::<u8>::empty()),
    {
        remove(backend, &self.key);
    }

    /// Whether a value exists at this key.
    pub fn has_value(&self, backend: &MemoryBackend) -> (r: bool)
        ensures
            r == backend@.contains_key(self.key@),
    {
        contains(backend, &self.key)
    }
}

/// A typed key-value mapping backed by contract storage.  Each entry lives
/// at `hash(namespace ++ encode(key))`; nothing is cached.
#[derive(Clone, Copy)]
pub struct Mapping {
    /// The hashed namespace all entries live under.
    pub namespace: [u8; 32],
    /// The type of the mapping's keys.
    pub key_ty: FieldType,
    /// The type of the mapping's values.
    pub val_ty: FieldType,
}

impl Mapping {
    /// A mapping from `key_ty` to `val_ty` under the hash of `namespace`.
    pub fn new(namespace: &[u8], key_ty: FieldType, val_ty: FieldType) -> (m: Mapping)
        ensures
            m.namespace@ == blake2s256(namespace@),
            m.key_ty == key_ty,
            m.val_ty == val_ty,
    {
        Mapping { namespace: hash_key(namespace), key_ty, val_ty }
    }

    /// The storage key of the entry for `key`:
    /// `hash(namespace ++ encode(key))`.
    pub fn storage_key(&self, key: &FieldValue) -> (k: [u8; 32])
        ensures
            k@ == spec_namespaced_key(self.namespace@, key@),
    {
        namespaced_key(self.namespace.as_slice(), key)
    }

    /// Read the value for `key`: `None` when the entry holds nothing or
    /// its bytes do not decode.
    pub fn get(&self, backend: &MemoryBackend, key: &FieldValue) -> (r: Option<FieldValue>)
        requires
            type_of(key@) == self.key_ty,
        ensures
            ({
                let entry = spec_namespaced_key(self.namespace@, key@);
                match r {
                    Option::Some(v) => backend@.contains_key(entry) && spec_decode_value(
                        self.val_ty,
                        backend@[entry],
                    ) == Some(v@),
                    Option::None => !backend@.contains_key(entry) || spec_decode_value(
                        self.val_ty,
                        backend@[entry],
                    ) is None,
                }
            }),
    {
        let entry = self.storage_key(key);
        get(backend, &entry, self.val_ty)
    }

    /// Write `value` at the entry for `key`.
    pub fn insert(&self, backend: &mut MemoryBackend, key: &FieldValue, value: &FieldValue)
        requires
            type_of(key@) == self.key_ty,
            type_of(value@) == self.val_ty,
        ensures
            final(backend)@ == old(backend)@.insert(
                spec_namespaced_key(self.namespace@, key@),
                spec_encode_value(value@),
            ),
    {
        let entry = self.storage_key(key);
        set(backend, &entry, value);
    }

    /// Clear the entry for `key`.
    pub fn remove(&self, backend: &mut MemoryBackend, key: &FieldValue)
        requires
            type_of(key@) == self.key_ty,
        ensures
            final(backend)@ == old(backend)@.insert(
                spec_namespaced_key(self.namespace@, key@),
                Seq::<u8>::empty(),
            ),
    {
        let entry = self.storage_key(key);
        remove(backend, &entry);
    }

    /// Whether the entry for `key` holds a value.
    pub fn contains(&self, backend: &MemoryBackend, key: &FieldValue) -> (r: bool)
        requires
            type_of(key@) == self.key_ty,
        ensures
            r == backend@.contains_key(spec_namespaced_key(self.namespace@, key@)),
    {
        let entry = self.storage_key(key);
        contains(backend, &entry)
    }
}

/// Mapping isolation: inserting two keys whose derived entry keys differ
/// leaves each entry holding exactly its own value, so reading them back
/// yields the two inserted values, which differ whenever the values do.
/// (Keys whose entry keys collide under the hash are excluded.)
pub proof fn lemma_mapping_isolation(
    namespace: Seq<u8>,
    m: Map<Seq<u8>, Seq<u8>>,
    k1: Value,
    k2: Value,
    v1: Value,
    v2: Value,
)
    requires
        spec_namespaced_key(namespace, k1) != spec_namespaced_key(namespace, k2),
        wf_value(v1),
        wf_value(v2),
    ensures
        ({
            let e1 = spec_namespaced_key(namespace, k1);
            let e2 = spec_namespaced_key(namespace, k2);
            let m2 = m.insert(e1, spec_encode_value(v1)).insert(e2, spec_encode_value(v2));
            &&& spec_decode_value(type_of(v1), m2[e1]) == Some(v1)
            &&& spec_decode_value(type_of(v2), m2[e2]) == Some(v2)
            &&& v1 != v2 ==> spec_decode_value(type_of(v1), m2[e1]) != spec_decode_value(
                type_of(v2),
                m2[e2],
            )
        }),
{
    lemma_value_round_trip(v1, Seq::empty());
    lemma_value_round_trip(v2, Seq::empty());
    assert(spec_encode_value(v1) + Seq::<u8>::empty() =~= spec_encode_value(v1));
    assert(spec_encode_value(v2) + Seq::<u8>::empty() =~= spec_encode_value(v2));
}

} // verus!
