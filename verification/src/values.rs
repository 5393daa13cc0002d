//! Values of a row: two 64-bit words whose first byte names the kind.

use vstd::prelude::*;

use crate::ff::{CHARACTER, FLOAT, INTEGER};

verus! {

/// An owned, encoded value: two little-endian words.
#[derive(Clone, Copy, Debug, PartialEq)]
pub struct Value(pub [u64; 2]);

/// A value whose top layer has been decoded. A float is kept as its bits.
#[derive(Clone, Copy, Debug, PartialEq)]
pub enum DecodedValue {
    Integer(i64),
    FloatBits(u64),
    Character(char),
}

/// Whether `u` is a Unicode scalar value.
pub open spec fn is_scalar(u: u32) -> bool {
    u <= 0xD7FF || (0xE000 <= u <= 0x10FFFF)
}

/// The character with the code point `u`, if `u` is a scalar value.
///
/// Calls `char::from_u32`, which the standard library documents to return
/// `None` exactly when `u` is a surrogate or above `0x10FFFF`.
#[verifier::external_body]
pub(crate) fn char_from_u32(u: u32) -> (r: Option<char>)
    ensures
        match r {
            Some(c) => is_scalar(u) && c == u as char,
            None => !is_scalar(u),
        },
{
    char::from_u32(u)
}

/// The replacement character U+FFFD.
pub open spec fn replacement() -> char {
    '\u{FFFD}'
}

/// What `v` decodes to: its first byte (the low byte of the first word)
/// names the kind; an integer or float is the second word, a character the
/// upper half of the first word, replaced by U+FFFD when it is no scalar.
pub open spec fn decode_spec(v: Value) -> Option<DecodedValue> {
    let kind = v.0[0] % 256;
    let high = v.0[0] / 0x1_0000_0000;
    if kind == INTEGER {
        Some(DecodedValue::Integer(#[verifier::truncate] (v.0[1] as i64)))
    } else if kind == FLOAT {
        Some(DecodedValue::FloatBits(v.0[1]))
    } else if kind == CHARACTER {
        Some(DecodedValue::Character(if is_scalar(high as u32) { (high as u32) as char } else { replacement() }))
    } else {
        None
    }
}

impl Value {
    /// Decodes the top layer of the value; `None` for a kind it does not
    /// know.
    pub fn decode(self) -> (r: Option<DecodedValue>)
        ensures
            r == decode_spec(self),
    {
        let kind = (self.0[0] % 256) as u8;
        let high = (self.0[0] / 0x1_0000_0000) as u32;
        let slot = self.0[1];
        if kind == INTEGER {
            Some(DecodedValue::Integer(#[verifier::truncate] (slot as i64)))
        } else if kind == FLOAT {
            Some(DecodedValue::FloatBits(slot))
        } else if kind == CHARACTER {
            match char_from_u32(high) {
                Some(c) => Some(DecodedValue::Character(c)),
                None => Some(DecodedValue::Character('\u{FFFD}')),
            }
        } else {
            None
        }
    }
}

/// Reading a word as an `i64` takes it as a two's complement number: the
/// word itself below `2^63`, the word less `2^64` from there on.
pub(crate) proof fn lemma_word_as_i64(w: u64)
    ensures
        w < 0x8000_0000_0000_0000 ==> (w as i64) as int == w as int,
        w >= 0x8000_0000_0000_0000 ==> (w as i64) as int == w as int - 0x1_0000_0000_0000_0000,
{
    assert(w < 0x8000_0000_0000_0000 ==> (w as i64) >= 0 && (w as i64) as u64 == w) by (bit_vector);
    assert(w >= 0x8000_0000_0000_0000 ==> (w as i64) < 0 && (w as i64) as u64 == w) by (bit_vector);
    assert(w >= 0x8000_0000_0000_0000 ==> ((w as i64) as u64) as int == (w as i64) as int + 0x1_0000_0000_0000_0000) by (bit_vector);
}

/// A value of the integer kind decodes to the integer that its whole
/// second word holds in two's complement: the word itself below `2^63`,
/// the word less `2^64` from there on.
pub proof fn law_integer_reads_whole_word(v: Value)
    requires
        v.0[0] % 256 == INTEGER,
    ensures
        decode_spec(v) is Some,
        decode_spec(v).unwrap() is Integer,
        v.0[1] < 0x8000_0000_0000_0000 ==> decode_spec(v).unwrap()->Integer_0 as int == v.0[1] as int,
        v.0[1] >= 0x8000_0000_0000_0000
            ==> decode_spec(v).unwrap()->Integer_0 as int == v.0[1] as int - 0x1_0000_0000_0000_0000,
{
    lemma_word_as_i64(v.0[1]);
}

/// A value of the float kind decodes to the bits of its whole second word;
/// one of the character kind to the character whose code point the upper
/// half of its first word holds, or U+FFFD when that is no scalar value;
/// one of any other kind to nothing.
pub proof fn law_value_kinds_decode(v: Value)
    ensures
        v.0[0] % 256 == FLOAT ==> decode_spec(v) == Some(DecodedValue::FloatBits(v.0[1])),
        v.0[0] % 256 == CHARACTER ==> (decode_spec(v) matches Some(DecodedValue::Character(c))
            && (is_scalar((v.0[0] / 0x1_0000_0000) as u32) ==> c as u32 == v.0[0] / 0x1_0000_0000)
            && (!is_scalar((v.0[0] / 0x1_0000_0000) as u32) ==> c == '\u{FFFD}')),
        v.0[0] % 256 != INTEGER && v.0[0] % 256 != FLOAT && v.0[0] % 256 != CHARACTER ==> decode_spec(v) is None,
{
}

} // verus!
