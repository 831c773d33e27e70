//! Selector and storage-key derivers.
//!
//! Each derivation is deterministic and pure: it depends on the given name
//! alone, so it can run at build time with no host support, and two
//! independently compiled contracts agree on every tag.
//!
//! The pipeline derivers ([`compute_selector`], [`compute_storage_key`])
//! draw on the Blake2s family; the remaining derivers are lightweight
//! mixing functions kept for callers that need a host-free constant key.

use crate::hashing::{blake2s256, blake2s_hash, digest32};
use vstd::prelude::*;

verus! {

/// A callable method's 4-byte tag: the first four bytes of the Blake2s
/// digest of its name.
pub open spec fn spec_selector(name: Seq<u8>) -> Seq<u8> {
    blake2s256(name).take(4)
}

/// A storage declaration's 32-byte tag: the Blake2s digest of its type name.
pub open spec fn spec_storage_key(name: Seq<u8>) -> Seq<u8> {
    blake2s256(name)
}

/// Derive the dispatch selector for a callable method from its name.
pub fn compute_selector(name: &[u8]) -> (s: [u8; 4])
    ensures
        s@ == spec_selector(name@),
{
    let digest = blake2s_hash(name);
    let s = [digest[0], digest[1], digest[2], digest[3]];
    proof {
        assert(s@ =~= spec_selector(name@));
    }
    s
}

/// Derive the persistent storage key for a storage type from its name.
pub fn compute_storage_key(name: &[u8]) -> (k: [u8; 32])
    ensures
        k@ == spec_storage_key(name@),
{
    let digest = blake2s_hash(name);
    digest32(&digest)
}

/// The zero-padded truncation of a name to four bytes.
pub open spec fn spec_selector_from_name(name: Seq<u8>) -> Seq<u8> {
    Seq::new(4, |i: int| if i < name.len() { name[i] } else { 0u8 })
}

/// A non-cryptographic selector: the name's first four bytes, zero padded.
/// Kept for contracts that hard-code human-readable tags.
pub fn selector_from_name(name: &[u8]) -> (s: [u8; 4])
    ensures
        s@ == spec_selector_from_name(name@),
{
    let mut s = [0u8; 4];
    let mut i: usize = 0;
    let n = if name.len() < 4 {
        name.len()
    } else {
        4
    };
    while i < n
        invariant
            n <= 4,
            n <= name@.len(),
            i <= n,
            forall|j: int| 0 <= j < i ==> s@[j] == name@[j],
            forall|j: int| i <= j < 4 ==> s@[j] == 0u8,
        decreases n - i,
    {
        s[i] = name[i];
        i = i + 1;
    }
    proof {
        assert(s@ =~= spec_selector_from_name(name@));
    }
    s
}

/// A byte sum truncated to eight bits.
pub open spec fn byte_add(a: u8, b: u8) -> u8 {
    ((a + b) % 256) as u8
}

/// The key state after folding the first `n` bytes of `name` into a 32-byte
/// accumulator: each byte is XORed in at its rotating index and, shifted by
/// its position, at a second index seven slots on.
pub open spec fn spec_key_fold(name: Seq<u8>, n: nat) -> Seq<u8>
    decreases n,
{
    if n == 0 {
        Seq::new(32, |i: int| 0u8)
    } else {
        let prev = spec_key_fold(name, (n - 1) as nat);
        let i = (n - 1) as int;
        let b = name[i];
        let j1 = i % 32;
        let j2 = (i + 7) % 32;
        let mixed = prev.update(j1, prev[j1] ^ b);
        mixed.update(j2, mixed[j2] ^ byte_add(b, (i % 256) as u8))
    }
}

/// The 32-byte key for a name: the folded accumulator with a three-byte
/// distinguishing prefix added in.
pub open spec fn spec_mixed_storage_key(name: Seq<u8>) -> Seq<u8> {
    let folded = spec_key_fold(name, name.len());
    folded.update(0, byte_add(folded[0], 0x70)).update(1, byte_add(folded[1], 0x76)).update(
        2,
        byte_add(folded[2], 0x6d),
    )
}

/// Derive a 32-byte storage key from a name by XOR mixing with rotation.
/// Host-free and deterministic, but not cryptographic.
pub fn storage_key(name: &[u8]) -> (k: [u8; 32])
    ensures
        k@ == spec_mixed_storage_key(name@),
{
    let mut key = [0u8; 32];
    proof {
        assert(key@ =~= spec_key_fold(name@, 0));
    }
    let mut i: usize = 0;
    while i < name.len()
        invariant
            i <= name@.len(),
            key@ == spec_key_fold(name@, i as nat),
        decreases name@.len() - i,
    {
        let b = name[i];
        key[i % 32] = key[i % 32] ^ b;
        let shifted = b.wrapping_add((i % 256) as u8);
        let j2 = (i % 32 + 7) % 32;
        proof {
            assert(shifted == byte_add(b, ((i as int) % 256) as u8));
            vstd::arithmetic::div_mod::lemma_add_mod_noop(i as int, 7, 32);
            assert(j2 as int == (i as int + 7) % 32);
        }
        key[j2] = key[j2] ^ shifted;
        proof {
            assert(key@ =~= spec_key_fold(name@, (i + 1) as nat));
        }
        i = i + 1;
    }
    key[0] = key[0].wrapping_add(0x70);
    key[1] = key[1].wrapping_add(0x76);
    key[2] = key[2].wrapping_add(0x6d);
    proof {
        assert(key@ =~= spec_mixed_storage_key(name@));
    }
    key
}

} // verus!
