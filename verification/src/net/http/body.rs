//! HTTP message bodies.

use vstd::prelude::*;
use vstd::string::StringSliceAdditionalSpecFns;

verus! {

/// An HTTP message body: its bytes.
#[derive(Debug, Clone)]
pub struct Body {
    data: Vec<u8>,
}

impl View for Body {
    type V = Seq<u8>;

    closed spec fn view(&self) -> Seq<u8> {
        self.data@
    }
}

impl Body {
    /// An empty body.
    pub fn empty() -> (r: Self)
        ensures
            r@ == Seq::<u8>::empty(),
    {
        Body { data: Vec::new() }
    }

    /// A body holding the given bytes.
    pub fn from_bytes(data: Vec<u8>) -> (r: Self)
        ensures
            r@ == data@,
    {
        Body { data }
    }

    /// A body holding the UTF-8 bytes of a text.
    pub fn from_text(text: &str) -> (r: Self)
        ensures
            r@ == text.spec_bytes(),
    {
        let b = text.as_bytes();
        Body { data: crate::text::bytes_to_vec(b) }
    }

    /// The body's bytes.
    pub fn as_bytes(&self) -> (r: &[u8])
        ensures
            r@ == self@,
    {
        self.data.as_slice()
    }

    /// The number of bytes.
    pub fn len(&self) -> (r: usize)
        ensures
            r == self@.len(),
    {
        self.data.len()
    }

    /// Whether the body has no bytes.
    pub fn is_empty(&self) -> (r: bool)
        ensures
            r == (self@.len() == 0),
    {
        self.data.len() == 0
    }

    /// Gives up the bytes.
    pub fn into_bytes(self) -> (r: Vec<u8>)
        ensures
            r@ == self@,
    {
        self.data
    }
}

} // verus!
