//! The shared hash family behind every derived tag.
//!
//! Selectors, storage keys and mapping entry keys are all derived from one
//! cryptographic hash, so that independently compiled contracts agree
//! bit-for-bit on every tag.

use blake2::Digest;
use vstd::prelude::*;

verus! {

/// The 32-byte Blake2s digest of a byte string.  Uninterpreted: the digest
/// is a pure function of the input and nothing more is assumed of it.
pub uninterp spec fn blake2s256(bytes: Seq<u8>) -> Seq<u8>;

/// Relies on blake2::Blake2s256 (one-shot digest::Digest::digest): a pure
/// 32-byte digest of the input bytes, depending on the bytes alone.
#[verifier::external_body]
pub(crate) fn blake2s_hash(bytes: &[u8]) -> (r: Vec<u8>)
    ensures
        r@ == blake2s256(bytes@),
        r@.len() == 32,
{
    blake2::Blake2s256::digest(bytes).to_vec()
}

/// Copy a 32-byte digest out of its vector into a fixed array.
pub(crate) fn digest32(bytes: &Vec<u8>) -> (r: [u8; 32])
    requires
        bytes@.len() == 32,
    ensures
        r@ == bytes@,
{
    let mut r = [0u8; 32];
    let mut i: usize = 0;
    while i < 32
        invariant
            bytes@.len() == 32,
            i <= 32,
            forall|j: int| 0 <= j < i ==> r@[j] == bytes@[j],
        decreases 32 - i,
    {
        r[i] = bytes[i];
        i = i + 1;
    }
    proof {
        assert(r@ =~= bytes@);
    }
    r
}

} // verus!
