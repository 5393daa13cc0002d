//! Fixed-size strings: arrays of bytes that hold valid UTF-8.

use vstd::prelude::*;

verus! {

/// Whether `b` is a continuation byte, `0x80` to `0xBF`.
pub open spec fn continuation(b: u8) -> bool {
    0x80 <= b <= 0xBF
}

/// Whether `bytes` is well-formed UTF-8: a sequence of the byte patterns of
/// the Unicode standard's table of well-formed UTF-8 byte sequences.
pub open spec fn utf8_valid(bytes: Seq<u8>) -> bool
    decreases bytes.len(),
{
    if bytes.len() == 0 {
        true
    } else {
        let c = bytes[0];
        let n = bytes.len();
        if c <= 0x7F {
            utf8_valid(bytes.skip(1))
        } else if 0xC2 <= c <= 0xDF {
            n >= 2 && continuation(bytes[1]) && utf8_valid(bytes.skip(2))
        } else if 0xE0 <= c <= 0xEF {
            n >= 3 && continuation(bytes[1]) && continuation(bytes[2])
                && (c != 0xE0 || bytes[1] >= 0xA0) && (c != 0xED || bytes[1] <= 0x9F)
                && utf8_valid(bytes.skip(3))
        } else if 0xF0 <= c <= 0xF4 {
            n >= 4 && continuation(bytes[1]) && continuation(bytes[2]) && continuation(bytes[3])
                && (c != 0xF0 || bytes[1] >= 0x90) && (c != 0xF4 || bytes[1] <= 0x8F)
                && utf8_valid(bytes.skip(4))
        } else {
            false
        }
    }
}

/// Whether `bytes` is valid UTF-8.
///
/// Calls `std::str::from_utf8`, which the standard library documents to
/// succeed exactly on well-formed UTF-8.
#[verifier::external_body]
pub(crate) fn is_utf8(bytes: &[u8]) -> (r: bool)
    ensures
        r == utf8_valid(bytes@),
{
    std::str::from_utf8(bytes).is_ok()
}

/// The `str` equivalent of `[u8; N]`: `N` bytes of valid UTF-8.
pub struct InlineStr<const N: usize>([u8; N]);

impl<const N: usize> View for InlineStr<N> {
    type V = Seq<u8>;

    closed spec fn view(&self) -> Seq<u8> {
        self.0@
    }
}

impl<const N: usize> InlineStr<N> {
    #[verifier::type_invariant]
    spec fn valid(self) -> bool {
        utf8_valid(self.0@)
    }

    /// The string of the bytes `data`, if they are valid UTF-8.
    pub fn new(data: [u8; N]) -> (r: Option<InlineStr<N>>)
        ensures
            match r {
                Some(s) => utf8_valid(data@) && s@ == data@,
                None => !utf8_valid(data@),
            },
    {
        if is_utf8(data.as_slice()) {
            Some(InlineStr(data))
        } else {
            None
        }
    }

    /// The bytes of the string, which are valid UTF-8.
    pub fn as_bytes(&self) -> (r: &[u8; N])
        ensures
            r@ == self@,
            utf8_valid(r@),
    {
        proof {
            use_type_invariant(self);
        }
        &self.0
    }
}

} // verus!
