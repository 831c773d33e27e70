//! Decoding and building the 32-byte big-endian words the host speaks.
//!
//! Block numbers and timestamps arrive as a 64-bit quantity in the last
//! eight bytes of a 32-byte word; balances as a 128-bit quantity in the
//! last sixteen; a transferred value is sent the same way.

use vstd::prelude::*;

verus! {

/// The 64-bit quantity in the last eight bytes of a 32-byte word,
/// big-endian.
pub open spec fn spec_u64_from_word(w: Seq<u8>) -> u64 {
    (
    ((w[24] as u64) << 56) | ((w[25] as u64) << 48) | ((w[26] as u64) << 40) | ((w[27] as u64)
        << 32) | ((w[28] as u64) << 24) | ((w[29] as u64) << 16) | ((w[30] as u64) << 8) | (
    w[31] as u64))
}

/// Read a block number or timestamp out of the host's 32-byte word: its
/// last eight bytes, big-endian.
pub fn u64_from_word(w: &[u8; 32]) -> (x: u64)
    ensures
        x == spec_u64_from_word(w@),
{
    ((w[24] as u64) << 56) | ((w[25] as u64) << 48) | ((w[26] as u64) << 40) | ((w[27] as u64)
        << 32) | ((w[28] as u64) << 24) | ((w[29] as u64) << 16) | ((w[30] as u64) << 8) | (
    w[31] as u64)
}

/// The 128-bit quantity in the last sixteen bytes of a 32-byte word,
/// big-endian.
pub open spec fn spec_u128_from_word(w: Seq<u8>) -> u128 {
    (
    ((w[16] as u128) << 120) | ((w[17] as u128) << 112) | ((w[18] as u128) << 104) | ((
    w[19] as u128) << 96) | ((w[20] as u128) << 88) | ((w[21] as u128) << 80) | ((w[22] as u128)
        << 72) | ((w[23] as u128) << 64) | ((w[24] as u128) << 56) | ((w[25] as u128) << 48) | ((
    w[26] as u128) << 40) | ((w[27] as u128) << 32) | ((w[28] as u128) << 24) | ((w[29] as u128)
        << 16) | ((w[30] as u128) << 8) | (w[31] as u128))
}

/// Read a balance out of the host's 32-byte word: its last sixteen bytes,
/// big-endian.
pub fn u128_from_word(w: &[u8; 32]) -> (x: u128)
    ensures
        x == spec_u128_from_word(w@),
{
    ((w[16] as u128) << 120) | ((w[17] as u128) << 112) | ((w[18] as u128) << 104) | ((
    w[19] as u128) << 96) | ((w[20] as u128) << 88) | ((w[21] as u128) << 80) | ((w[22] as u128)
        << 72) | ((w[23] as u128) << 64) | ((w[24] as u128) << 56) | ((w[25] as u128) << 48) | ((
    w[26] as u128) << 40) | ((w[27] as u128) << 32) | ((w[28] as u128) << 24) | ((w[29] as u128)
        << 16) | ((w[30] as u128) << 8) | (w[31] as u128)
}

/// The 32-byte word carrying `value` big-endian in its last sixteen bytes.
pub open spec fn spec_value_word(value: u128) -> Seq<u8> {
    Seq::new(
        32,
        |i: int|
            if i < 16 {
                0u8
            } else {
                (((value >> ((31 - i) * 8)) & 0xff) as u8)
            },
    )
}

/// Build the 32-byte word that carries a transferred value: the 128-bit
/// amount big-endian in the last sixteen bytes, zero elsewhere.
pub fn value_to_word(value: u128) -> (w: [u8; 32])
    ensures
        w@ == spec_value_word(value),
{
    let mut w = [0u8; 32];
    let mut i: usize = 16;
    while i < 32
        invariant
            16 <= i <= 32,
            forall|j: int| 0 <= j < 16 ==> w@[j] == 0u8,
            forall|j: int| 16 <= j < i ==> w@[j] == ((value >> ((31 - j) * 8)) & 0xff) as u8,
        decreases 32 - i,
    {
        let shift: u32 = ((31 - i) as u32) * 8;
        w[i] = ((value >> shift) & 0xff) as u8;
        i = i + 1;
    }
    proof {
        assert(w@ =~= spec_value_word(value));
    }
    w
}

} // verus!
