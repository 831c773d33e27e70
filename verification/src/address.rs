//! Concrete address types: the 20-byte EVM-compatible contract address and
//! the 32-byte Substrate account identifier, with the conversions between
//! them.

use vstd::prelude::*;

verus! {

/// The all-zero byte sequence of length `n`.
pub open spec fn zero_bytes(n: nat) -> Seq<u8> {
    Seq::new(n, |i: int| 0u8)
}

/// The lower-case hexadecimal digit of a value below sixteen.
pub open spec fn hex_digit(n: u8) -> char {
    if n == 0 {
        '0'
    } else if n == 1 {
        '1'
    } else if n == 2 {
        '2'
    } else if n == 3 {
        '3'
    } else if n == 4 {
        '4'
    } else if n == 5 {
        '5'
    } else if n == 6 {
        '6'
    } else if n == 7 {
        '7'
    } else if n == 8 {
        '8'
    } else if n == 9 {
        '9'
    } else if n == 10 {
        'a'
    } else if n == 11 {
        'b'
    } else if n == 12 {
        'c'
    } else if n == 13 {
        'd'
    } else if n == 14 {
        'e'
    } else {
        'f'
    }
}

/// The hexadecimal rendering of a byte string: two digits per byte.
pub open spec fn spec_hex(bytes: Seq<u8>) -> Seq<char>
    decreases bytes.len(),
{
    if bytes.len() == 0 {
        Seq::empty()
    } else {
        spec_hex(bytes.drop_last()) + seq![
            hex_digit((bytes.last() / 16) as u8),
            hex_digit((bytes.last() % 16) as u8),
        ]
    }
}

/// Append one hexadecimal digit to a string.
fn push_hex_digit(s: &mut String, n: u8)
    requires
        n < 16,
    ensures
        final(s)@ == old(s)@ + seq![hex_digit(n)],
{
    if n == 0 {
        s.append("0");
        proof {
            reveal_strlit("0");
            assert(old(s)@ + "0"@ =~= old(s)@ + seq![hex_digit(n)]);
        }
    } else if n == 1 {
        s.append("1");
        proof {
            reveal_strlit("1");
            assert(old(s)@ + "1"@ =~= old(s)@ + seq![hex_digit(n)]);
        }
    } else if n == 2 {
        s.append("2");
        proof {
            reveal_strlit("2");
            assert(old(s)@ + "2"@ =~= old(s)@ + seq![hex_digit(n)]);
        }
    } else if n == 3 {
        s.append("3");
        proof {
            reveal_strlit("3");
            assert(old(s)@ + "3"@ =~= old(s)@ + seq![hex_digit(n)]);
        }
    } else if n == 4 {
        s.append("4");
        proof {
            reveal_strlit("4");
            assert(old(s)@ + "4"@ =~= old(s)@ + seq![hex_digit(n)]);
        }
    } else if n == 5 {
        s.append("5");
        proof {
            reveal_strlit("5");
            assert(old(s)@ + "5"@ =~= old(s)@ + seq![hex_digit(n)]);
        }
    } else if n == 6 {
        s.append("6");
        proof {
            reveal_strlit("6");
            assert(old(s)@ + "6"@ =~= old(s)@ + seq![hex_digit(n)]);
        }
    } else if n == 7 {
        s.append("7");
        proof {
            reveal_strlit("7");
            assert(old(s)@ + "7"@ =~= old(s)@ + seq![hex_digit(n)]);
        }
    } else if n == 8 {
        s.append("8");
        proof {
            reveal_strlit("8");
            assert(old(s)@ + "8"@ =~= old(s)@ + seq![hex_digit(n)]);
        }
    } else if n == 9 {
        s.append("9");
        proof {
            reveal_strlit("9");
            assert(old(s)@ + "9"@ =~= old(s)@ + seq![hex_digit(n)]);
        }
    } else if n == 10 {
        s.append("a");
        proof {
            reveal_strlit("a");
            assert(old(s)@ + "a"@ =~= old(s)@ + seq![hex_digit(n)]);
        }
    } else if n == 11 {
        s.append("b");
        proof {
            reveal_strlit("b");
            assert(old(s)@ + "b"@ =~= old(s)@ + seq![hex_digit(n)]);
        }
    } else if n == 12 {
        s.append("c");
        proof {
            reveal_strlit("c");
            assert(old(s)@ + "c"@ =~= old(s)@ + seq![hex_digit(n)]);
        }
    } else if n == 13 {
        s.append("d");
        proof {
            reveal_strlit("d");
            assert(old(s)@ + "d"@ =~= old(s)@ + seq![hex_digit(n)]);
        }
    } else if n == 14 {
        s.append("e");
        proof {
            reveal_strlit("e");
            assert(old(s)@ + "e"@ =~= old(s)@ + seq![hex_digit(n)]);
        }
    } else {
        s.append("f");
        proof {
            reveal_strlit("f");
            assert(old(s)@ + "f"@ =~= old(s)@ + seq![hex_digit(n)]);
        }
    }
}

/// Render a byte string as `0x` followed by two lower-case hexadecimal
/// digits per byte.
pub fn hex_string(bytes: &[u8]) -> (s: String)
    ensures
        s@ == seq!['0', 'x'] + spec_hex(bytes@),
{
    let mut s = String::from_str("0x");
    proof {
        reveal_strlit("0x");
        assert(s@ =~= seq!['0', 'x'] + spec_hex(bytes@.take(0)));
    }
    let mut i: usize = 0;
    while i < bytes.len()
        invariant
            i <= bytes@.len(),
            s@ == seq!['0', 'x'] + spec_hex(bytes@.take(i as int)),
        decreases bytes@.len() - i,
    {
        let b = bytes[i];
        push_hex_digit(&mut s, b / 16);
        push_hex_digit(&mut s, b % 16);
        proof {
            assert(bytes@.take(i as int + 1).drop_last() =~= bytes@.take(i as int));
            assert(s@ =~= seq!['0', 'x'] + spec_hex(bytes@.take(i as int + 1)));
        }
        i = i + 1;
    }
    proof {
        assert(bytes@.take(bytes@.len() as int) =~= bytes@);
    }
    s
}

/// A 20-byte EVM-compatible address: the standard address of a deployed
/// contract.
#[derive(Clone, Copy, Debug)]
pub struct Address(pub [u8; 20]);

impl Address {
    /// The zero address.
    pub fn zero() -> (a: Address)
        ensures
            a.0@ == zero_bytes(20),
    {
        let a = Address([0u8; 20]);
        proof {
            assert(a.0@ =~= zero_bytes(20));
        }
        a
    }

    /// Whether every byte is zero.
    pub fn is_zero(&self) -> (r: bool)
        ensures
            r <==> self.0@ == zero_bytes(20),
    {
        let mut i: usize = 0;
        while i < 20
            invariant
                i <= 20,
                forall|j: int| 0 <= j < i ==> self.0@[j] == 0u8,
            decreases 20 - i,
        {
            if self.0[i] != 0 {
                proof {
                    assert(self.0@[i as int] != zero_bytes(20)[i as int]);
                }
                return false;
            }
            i = i + 1;
        }
        proof {
            assert(self.0@ =~= zero_bytes(20));
        }
        true
    }

    /// The raw bytes of this address.
    pub fn as_bytes(&self) -> (b: &[u8; 20])
        ensures
            b@ == self.0@,
    {
        &self.0
    }

    /// The raw bytes of this address, for writing in place.
    pub fn as_bytes_mut(&mut self) -> (b: &mut [u8; 20])
        ensures
            b@ == old(self).0@,
            final(self).0@ == final(b)@,
    {
        &mut self.0
    }

    /// An address from its raw bytes.
    pub fn from_bytes(bytes: [u8; 20]) -> (a: Address)
        ensures
            a.0@ == bytes@,
    {
        Address(bytes)
    }

    /// Render as `0x` followed by forty hexadecimal digits.
    pub fn to_hex(&self) -> (s: String)
        ensures
            s@ == seq!['0', 'x'] + spec_hex(self.0@),
    {
        hex_string(self.0.as_slice())
    }

    /// Widen to a 32-byte Substrate address by left-padding with zeros.
    pub fn to_substrate(&self) -> (s: SubstrateAddress)
        ensures
            s.0@ == zero_bytes(12) + self.0@,
    {
        let mut bytes = [0u8; 32];
        let mut i: usize = 0;
        while i < 20
            invariant
                i <= 20,
                forall|j: int| 0 <= j < 12 ==> bytes@[j] == 0u8,
                forall|j: int| 12 <= j < 12 + i ==> bytes@[j] == self.0@[j - 12],
            decreases 20 - i,
        {
            bytes[12 + i] = self.0[i];
            i = i + 1;
        }
        let s = SubstrateAddress(bytes);
        proof {
            assert(s.0@ =~= zero_bytes(12) + self.0@);
        }
        s
    }
}

/// A 32-byte Substrate account identifier.
#[derive(Clone, Copy, Debug)]
pub struct SubstrateAddress(pub [u8; 32]);

impl SubstrateAddress {
    /// The zero address.
    pub fn zero() -> (a: SubstrateAddress)
        ensures
            a.0@ == zero_bytes(32),
    {
        let a = SubstrateAddress([0u8; 32]);
        proof {
            assert(a.0@ =~= zero_bytes(32));
        }
        a
    }

    /// Whether every byte is zero.
    pub fn is_zero(&self) -> (r: bool)
        ensures
            r <==> self.0@ == zero_bytes(32),
    {
        let mut i: usize = 0;
        while i < 32
            invariant
                i <= 32,
                forall|j: int| 0 <= j < i ==> self.0@[j] == 0u8,
            decreases 32 - i,
        {
            if self.0[i] != 0 {
                proof {
                    assert(self.0@[i as int] != zero_bytes(32)[i as int]);
                }
                return false;
            }
            i = i + 1;
        }
        proof {
            assert(self.0@ =~= zero_bytes(32));
        }
        true
    }

    /// The raw bytes of this address.
    pub fn as_bytes(&self) -> (b: &[u8; 32])
        ensures
            b@ == self.0@,
    {
        &self.0
    }

    /// The raw bytes of this address, for writing in place.
    pub fn as_bytes_mut(&mut self) -> (b: &mut [u8; 32])
        ensures
            b@ == old(self).0@,
            final(self).0@ == final(b)@,
    {
        &mut self.0
    }

    /// An address from its raw bytes.
    pub fn from_bytes(bytes: [u8; 32]) -> (a: SubstrateAddress)
        ensures
            a.0@ == bytes@,
    {
        SubstrateAddress(bytes)
    }

    /// Render as `0x` followed by sixty-four hexadecimal digits.
    pub fn to_hex(&self) -> (s: String)
        ensures
            s@ == seq!['0', 'x'] + spec_hex(self.0@),
    {
        hex_string(self.0.as_slice())
    }

    /// Narrow to a 20-byte address: succeeds exactly when the first twelve
    /// bytes are zero, taking the last twenty.
    pub fn to_evm(&self) -> (r: Option<Address>)
        ensures
            match r {
                Option::Some(a) => self.0@.take(12) == zero_bytes(12) && a.0@ == self.0@.skip(12),
                Option::None => self.0@.take(12) != zero_bytes(12),
            },
    {
        let mut i: usize = 0;
        while i < 12
            invariant
                i <= 12,
                forall|j: int| 0 <= j < i ==> self.0@[j] == 0u8,
            decreases 12 - i,
        {
            if self.0[i] != 0 {
                proof {
                    assert(self.0@.take(12)[i as int] != zero_bytes(12)[i as int]);
                }
                return None;
            }
            i = i + 1;
        }
        let mut bytes = [0u8; 20];
        let mut k: usize = 0;
        while k < 20
            invariant
                k <= 20,
                forall|j: int| 0 <= j < k ==> bytes@[j] == self.0@[12 + j],
            decreases 20 - k,
        {
            bytes[k] = self.0[12 + k];
            k = k + 1;
        }
        proof {
            assert(self.0@.take(12) =~= zero_bytes(12));
            assert(bytes@ =~= self.0@.skip(12));
        }
        Some(Address(bytes))
    }
}

} // verus!
