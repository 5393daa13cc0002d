//! Content that a value holds inline: up to fourteen bytes with their
//! length, or fifteen bytes that fill the value; or a reference to the
//! resource that holds it.

use vstd::prelude::*;

use crate::ids::ObjectId;
use crate::istr::{is_utf8, utf8_valid};

verus! {

/// Content of a value: a resource, fifteen inline bytes, or fewer inline
/// bytes with their length.
#[derive(Clone)]
pub enum ValueContent<I, M> {
    Resource(ObjectId),
    InlineMax(M),
    Inline(I),
}

/// Up to fourteen bytes of binary data.
#[derive(Clone, Copy)]
pub struct InlineBytes {
    len: u8,
    bytes: [u8; 14],
}

/// Fifteen bytes of text.
#[derive(Clone, Copy)]
pub struct InlineStrMax([u8; 15]);

/// Up to fourteen bytes of text.
#[derive(Clone, Copy)]
pub struct InlineStr {
    len: u8,
    text: [u8; 14],
}

/// Fifteen bytes of a URL.
#[derive(Clone, Copy)]
pub struct InlineUrlMax([u8; 15]);

/// Up to fourteen bytes of a URL.
#[derive(Clone, Copy)]
pub struct InlineUrl {
    len: u8,
    data: [u8; 14],
}

impl View for InlineBytes {
    type V = Seq<u8>;

    /// The bytes of the content.
    closed spec fn view(&self) -> Seq<u8> {
        self.bytes@.take(self.len as int)
    }
}

impl View for InlineStrMax {
    type V = Seq<u8>;

    closed spec fn view(&self) -> Seq<u8> {
        self.0@
    }
}

impl View for InlineStr {
    type V = Seq<u8>;

    /// The bytes of the text.
    closed spec fn view(&self) -> Seq<u8> {
        self.text@.take(self.len as int)
    }
}

impl View for InlineUrlMax {
    type V = Seq<u8>;

    closed spec fn view(&self) -> Seq<u8> {
        self.0@
    }
}

impl View for InlineUrl {
    type V = Seq<u8>;

    /// The bytes of the URL.
    closed spec fn view(&self) -> Seq<u8> {
        self.data@.take(self.len as int)
    }
}

/// The first `len` bytes of `bytes`.
fn prefix(bytes: &[u8; 14], len: u8) -> (r: Vec<u8>)
    requires
        len <= 14,
    ensures
        r@ == bytes@.take(len as int),
{
    let mut out: Vec<u8> = Vec::new();
    let mut i: usize = 0;
    while i < len as usize
        invariant
            i <= len <= 14,
            bytes@.len() == 14,
            out@ == bytes@.take(i as int),
        decreases len - i,
    {
        out.push(bytes[i]);
        assert(out@ =~= bytes@.take(i as int + 1));
        i = i + 1;
    }
    out
}

impl InlineBytes {
    #[verifier::type_invariant]
    spec fn fits(self) -> bool {
        self.len <= 14
    }

    /// The content of the first `len` bytes of `bytes`; `None` when `len`
    /// is more than fourteen.
    pub fn new(len: u8, bytes: [u8; 14]) -> (r: Option<InlineBytes>)
        ensures
            match r {
                Some(b) => len <= 14 && b@ == bytes@.take(len as int),
                None => len > 14,
            },
    {
        if len <= 14 {
            Some(InlineBytes { len, bytes })
        } else {
            None
        }
    }

    /// The bytes of the content.
    pub fn as_bytes(&self) -> (r: Vec<u8>)
        ensures
            r@ == self@,
    {
        proof {
            use_type_invariant(self);
        }
        prefix(&self.bytes, self.len)
    }
}

impl InlineStrMax {
    #[verifier::type_invariant]
    spec fn valid(self) -> bool {
        utf8_valid(self.0@)
    }

    /// The text of `bytes`, if they are valid UTF-8.
    pub fn new(bytes: [u8; 15]) -> (r: Option<InlineStrMax>)
        ensures
            match r {
                Some(t) => utf8_valid(bytes@) && t@ == bytes@,
                None => !utf8_valid(bytes@),
            },
    {
        if is_utf8(bytes.as_slice()) {
            Some(InlineStrMax(bytes))
        } else {
            None
        }
    }

    /// The bytes of the text, which are valid UTF-8.
    pub fn as_bytes(&self) -> (r: [u8; 15])
        ensures
            r@ == self@,
            utf8_valid(r@),
    {
        proof {
            use_type_invariant(self);
        }
        self.0
    }
}

impl InlineStr {
    #[verifier::type_invariant]
    spec fn valid(self) -> bool {
        self.len <= 14 && utf8_valid(self.text@.take(self.len as int))
    }

    /// The text of the first `len` bytes of `text`, if there are at most
    /// fourteen and they are valid UTF-8.
    pub fn new(len: u8, text: [u8; 14]) -> (r: Option<InlineStr>)
        ensures
            match r {
                Some(t) => len <= 14 && utf8_valid(text@.take(len as int)) && t@ == text@.take(len as int),
                None => !(len <= 14 && utf8_valid(text@.take(len as int))),
            },
    {
        if len > 14 {
            return None;
        }
        let content = prefix(&text, len);
        if is_utf8(content.as_slice()) {
            Some(InlineStr { len, text })
        } else {
            None
        }
    }

    /// The bytes of the text, which are valid UTF-8.
    pub fn as_bytes(&self) -> (r: Vec<u8>)
        ensures
            r@ == self@,
            utf8_valid(r@),
    {
        proof {
            use_type_invariant(self);
        }
        prefix(&self.text, self.len)
    }
}

impl InlineUrlMax {
    #[verifier::type_invariant]
    spec fn valid(self) -> bool {
        utf8_valid(self.0@)
    }

    /// The URL text of `bytes`, if they are valid UTF-8.
    pub fn new(bytes: [u8; 15]) -> (r: Option<InlineUrlMax>)
        ensures
            match r {
                Some(u) => utf8_valid(bytes@) && u@ == bytes@,
                None => !utf8_valid(bytes@),
            },
    {
        if is_utf8(bytes.as_slice()) {
            Some(InlineUrlMax(bytes))
        } else {
            None
        }
    }

    /// The bytes of the URL, which are valid UTF-8.
    pub fn as_bytes(&self) -> (r: [u8; 15])
        ensures
            r@ == self@,
            utf8_valid(r@),
    {
        proof {
            use_type_invariant(self);
        }
        self.0
    }
}

impl InlineUrl {
    #[verifier::type_invariant]
    spec fn valid(self) -> bool {
        self.len <= 14 && utf8_valid(self.data@.take(self.len as int))
    }

    /// The URL text of the first `len` bytes of `data`, if there are at
    /// most fourteen and they are valid UTF-8.
    pub fn new(len: u8, data: [u8; 14]) -> (r: Option<InlineUrl>)
        ensures
            match r {
                Some(u) => len <= 14 && utf8_valid(data@.take(len as int)) && u@ == data@.take(len as int),
                None => !(len <= 14 && utf8_valid(data@.take(len as int))),
            },
    {
        if len > 14 {
            return None;
        }
        let content = prefix(&data, len);
        if is_utf8(content.as_slice()) {
            Some(InlineUrl { len, data })
        } else {
            None
        }
    }

    /// The bytes of the URL, which are valid UTF-8.
    pub fn as_bytes(&self) -> (r: Vec<u8>)
        ensures
            r@ == self@,
            utf8_valid(r@),
    {
        proof {
            use_type_invariant(self);
        }
        prefix(&self.data, self.len)
    }
}

/// A URL: text of well-formed UTF-8, held as its bytes.
pub struct Url(Vec<u8>);

impl View for Url {
    type V = Seq<u8>;

    /// The bytes of the URL.
    closed spec fn view(&self) -> Seq<u8> {
        self.0@
    }
}

impl Url {
    #[verifier::type_invariant]
    spec fn valid(self) -> bool {
        utf8_valid(self.0@)
    }

    /// The URL of `bytes`, if they are well-formed UTF-8.
    pub fn new(bytes: Vec<u8>) -> (r: Option<Url>)
        ensures
            match r {
                Some(u) => utf8_valid(bytes@) && u@ == bytes@,
                None => !utf8_valid(bytes@),
            },
    {
        if is_utf8(bytes.as_slice()) {
            Some(Url(bytes))
        } else {
            None
        }
    }

    /// The bytes of the URL, which are well-formed UTF-8.
    pub fn as_bytes(&self) -> (r: &[u8])
        ensures
            r@ == self@,
            utf8_valid(r@),
    {
        proof {
            use_type_invariant(self);
        }
        self.0.as_slice()
    }
}

impl InlineUrlMax {
    /// The URL that the fifteen bytes hold.
    pub fn url(&self) -> (r: Url)
        ensures
            r@ == self@,
    {
        let bytes = self.as_bytes();
        let mut out: Vec<u8> = Vec::new();
        let mut i: usize = 0;
        while i < 15
            invariant
                i <= 15,
                bytes@.len() == 15,
                out@ == bytes@.take(i as int),
                utf8_valid(bytes@),
                bytes@ == self@,
            decreases 15 - i,
        {
            out.push(bytes[i]);
            i = i + 1;
            assert(out@ =~= bytes@.take(i as int));
        }
        assert(out@ =~= bytes@);
        Url(out)
    }
}

impl InlineUrl {
    /// The URL that the bytes hold.
    pub fn url(&self) -> (r: Url)
        ensures
            r@ == self@,
    {
        Url(self.as_bytes())
    }
}

} // verus!
