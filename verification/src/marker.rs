//! A marker: one scalar value with a lossless fixed-width text form.
//!
//! The scalar is an IEEE-754 single-precision number, held as its 32-bit
//! pattern so that the text form and every rule about it are stated over
//! plain integers. The text of a marker is exactly 8 lowercase hexadecimal
//! characters: the value's four bytes, most-significant first, two digits
//! each. Decoding inverts encoding bit-exactly, for every pattern, the
//! patterns of NaN, the infinities and negative zero included.

use vstd::prelude::*;

use crate::error::DecodeError;
use crate::hex::all_hex;
use crate::hex::hex8;
use crate::hex::hex_char_str;
use crate::hex::hex_digit_value;
use crate::hex::hex_num;
use crate::hex::is_hex_digit;
use crate::hex::lemma_hex_num_bound;
use crate::hex::lemma_hex_num_step;
use crate::hex::lemma_pow16_mono;
use crate::hex::nibble;
use crate::hex::pow16;
use vstd::string::StrSliceExecFns;
use vstd::string::StringExecFns;

verus! {

/// One scalar value of a gene, as the 32-bit pattern of an IEEE-754
/// single-precision number.
#[derive(Clone, Copy, Debug, PartialEq, Eq, Structural)]
pub struct Marker {
    pub bits: u32,
}

/// What `Marker::decode` returns for a given text: the marker named by an
/// 8-character hexadecimal text, and otherwise the error that says how the
/// text falls short.
pub open spec fn marker_decode_spec(t: Seq<char>) -> Result<Marker, DecodeError> {
    if t.len() % 2 != 0 {
        Err(DecodeError::InvalidHexLength)
    } else if t.len() != 8 {
        Err(DecodeError::UnexpectedByteCount)
    } else if !all_hex(t) {
        Err(DecodeError::InvalidHexDigit)
    } else {
        Ok(Marker { bits: hex_num(t) as u32 })
    }
}

/// Whether a pattern names NaN: exponent bits all ones and a nonzero
/// mantissa.
pub open spec fn is_nan_bits(b: u32) -> bool {
    b & 0x7F80_0000 == 0x7F80_0000 && b & 0x007F_FFFF != 0
}

/// IEEE-754 equality of the single-precision values two patterns name:
/// NaN equals nothing, positive and negative zero are equal, and every
/// other value is equal exactly to the value of its own pattern.
pub open spec fn value_eq(a: u32, b: u32) -> bool {
    !is_nan_bits(a) && !is_nan_bits(b) && (a == b || (a & 0x7FFF_FFFF == 0 && b
        & 0x7FFF_FFFF == 0))
}

/// Decides IEEE-754 equality of the values two patterns name.
pub fn values_equal(a: u32, b: u32) -> (r: bool)
    ensures
        r == value_eq(a, b),
{
    let a_nan = (a & 0x7F80_0000 == 0x7F80_0000) && (a & 0x007F_FFFF != 0);
    let b_nan = (b & 0x7F80_0000 == 0x7F80_0000) && (b & 0x007F_FFFF != 0);
    !a_nan && !b_nan && (a == b || (a & 0x7FFF_FFFF == 0 && b & 0x7FFF_FFFF == 0))
}

impl Marker {
    /// Wraps a 32-bit value pattern; always succeeds.
    pub fn new(bits: u32) -> (m: Marker)
        ensures
            m.bits == bits,
    {
        Marker { bits }
    }

    /// The text of this marker: exactly 8 lowercase hexadecimal characters,
    /// most-significant nibble first.
    pub fn to_string(&self) -> (r: String)
        ensures
            r@ == hex8(self.bits),
            r@.len() == 8,
    {
        let mut r = String::new();
        let mut i: usize = 0;
        while i < 8
            invariant
                i <= 8,
                r@ =~= hex8(self.bits).take(i as int),
            decreases 8 - i,
        {
            let sh: u32 = 28 - 4 * (i as u32);
            let b: u32 = self.bits;
            let v: u32 = (b >> sh) & 0xF;
            assert(v < 16) by (bit_vector)
                requires
                    v == (b >> sh) & 0xF,
            ;
            assert(v == nibble(self.bits, i as int));
            let d = hex_char_str(v);
            r.append(d);
            proof {
                assert(r@ =~= hex8(self.bits).take(i + 1));
            }
            i = i + 1;
        }
        proof {
            assert(r@ =~= hex8(self.bits));
        }
        r
    }

    /// Reads a marker back from its text. The text must be exactly 8
    /// hexadecimal characters (either case); otherwise the result says
    /// whether the length is odd, names the wrong number of bytes, or holds
    /// a character that is no hexadecimal digit.
    pub fn decode(s: &str) -> (r: Result<Marker, DecodeError>)
        ensures
            r == marker_decode_spec(s@),
    {
        let n = s.unicode_len();
        if n % 2 != 0 {
            return Err(DecodeError::InvalidHexLength);
        }
        if n != 8 {
            return Err(DecodeError::UnexpectedByteCount);
        }
        let ghost t = s@;
        let mut acc: u32 = 0;
        let mut i: usize = 0;
        while i < 8
            invariant
                i <= 8,
                t.len() == 8,
                t == s@,
                forall|j: int| 0 <= j < i ==> is_hex_digit(t[j]),
                acc == hex_num(t.take(i as int)),
            decreases 8 - i,
        {
            let c = s.get_char(i);
            match hex_digit_value(c) {
                None => {
                    assert(!all_hex(t));
                    return Err(DecodeError::InvalidHexDigit);
                },
                Some(v) => {
                    proof {
                        assert(all_hex(t.take(i as int)));
                        lemma_hex_num_bound(t.take(i as int));
                        lemma_pow16_mono(i as nat, 7);
                        assert(pow16(7) == 0x10000000) by {
                            reveal_with_fuel(pow16, 8);
                        }
                        lemma_hex_num_step(t, i as int);
                    }
                    acc = acc * 16 + v;
                },
            }
            i = i + 1;
        }
        assert(t.take(8) =~= t);
        Ok(Marker { bits: acc })
    }
}

/// Decoding the text of any marker gives the marker back, bit-exactly:
/// this holds of every pattern, those of NaN, the infinities and negative
/// zero included.
pub proof fn lemma_marker_text_round_trip(m: Marker)
    ensures
        marker_decode_spec(hex8(m.bits)) == Ok::<Marker, DecodeError>(m),
{
    crate::hex::lemma_hex8_round_trip(m.bits);
}

} // verus!
