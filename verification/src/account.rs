//! A generic address abstraction over the two supported formats.
//!
//! Contracts that are generic in the address format program against this
//! trait; `EvmAddress` (20 bytes) and `SubstrateAddress` (32 bytes)
//! implement it.

use vstd::prelude::*;

verus! {

/// An address format of some fixed byte length.
pub trait Address: Sized {
    /// The address's bytes.
    spec fn addr_bytes(&self) -> Seq<u8>;

    /// The format's fixed length in bytes.
    spec fn spec_len() -> nat;

    /// The format's fixed length in bytes.
    fn byte_len() -> (n: usize)
        ensures
            n == Self::spec_len(),
    ;

    /// The zero address of this format.
    fn zero() -> (a: Self)
        ensures
            a.addr_bytes() == Seq::new(Self::spec_len(), |i: int| 0u8),
    ;

    /// Whether every byte is zero.
    fn is_zero(&self) -> (r: bool)
        requires
            self.addr_bytes().len() == Self::spec_len(),
        ensures
            r <==> self.addr_bytes() == Seq::new(Self::spec_len(), |i: int| 0u8),
    ;
}

/// A 20-byte EVM-compatible address.
#[derive(Clone, Copy, Debug)]
pub struct EvmAddress(pub [u8; 20]);

impl Address for EvmAddress {
    open spec fn addr_bytes(&self) -> Seq<u8> {
        self.0@
    }

    open spec fn spec_len() -> nat {
        20
    }

    fn byte_len() -> (n: usize) {
        20
    }

    fn zero() -> (a: Self) {
        let a = EvmAddress([0u8; 20]);
        proof {
            assert(a.addr_bytes() =~= Seq::new(20, |i: int| 0u8));
        }
        a
    }

    fn is_zero(&self) -> (r: bool) {
        let mut i: usize = 0;
        while i < 20
            invariant
                i <= 20,
                forall|j: int| 0 <= j < i ==> self.0@[j] == 0u8,
            decreases 20 - i,
        {
            if self.0[i] != 0 {
                proof {
                    assert(self.addr_bytes()[i as int] != Seq::new(20nat, |j: int| 0u8)[i as int]);
                }
                return false;
            }
            i = i + 1;
        }
        proof {
            assert(self.addr_bytes() =~= Seq::new(20, |i: int| 0u8));
        }
        true
    }
}

/// A 32-byte Substrate account identifier.
#[derive(Clone, Copy, Debug)]
pub struct SubstrateAddress(pub [u8; 32]);

impl Address for SubstrateAddress {
    open spec fn addr_bytes(&self) -> Seq<u8> {
        self.0@
    }

    open spec fn spec_len() -> nat {
        32
    }

    fn byte_len() -> (n: usize) {
        32
    }

    fn zero() -> (a: Self) {
        let a = SubstrateAddress([0u8; 32]);
        proof {
            assert(a.addr_bytes() =~= Seq::new(32, |i: int| 0u8));
        }
        a
    }

    fn is_zero(&self) -> (r: bool) {
        let mut i: usize = 0;
        while i < 32
            invariant
                i <= 32,
                forall|j: int| 0 <= j < i ==> self.0@[j] == 0u8,
            decreases 32 - i,
        {
            if self.0[i] != 0 {
                proof {
                    assert(self.addr_bytes()[i as int] != Seq::new(32nat, |j: int| 0u8)[i as int]);
                }
                return false;
            }
            i = i + 1;
        }
        proof {
            assert(self.addr_bytes() =~= Seq::new(32, |i: int| 0u8));
        }
        true
    }
}

/// Widen an EVM address to a Substrate account by left-padding with zeros.
pub fn widen_address(evm: &EvmAddress) -> (s: SubstrateAddress)
    ensures
        s.0@ == Seq::new(12, |i: int| 0u8) + evm.0@,
{
    let mut bytes = [0u8; 32];
    let mut i: usize = 0;
    while i < 20
        invariant
            i <= 20,
            forall|j: int| 0 <= j < 12 ==> bytes@[j] == 0u8,
            forall|j: int| 12 <= j < 12 + i ==> bytes@[j] == evm.0@[j - 12],
        decreases 20 - i,
    {
        bytes[12 + i] = evm.0[i];
        i = i + 1;
    }
    let s = SubstrateAddress(bytes);
    proof {
        assert(s.0@ =~= Seq::new(12, |i: int| 0u8) + evm.0@);
    }
    s
}

} // verus!
