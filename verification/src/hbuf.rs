//! Fixed-capacity accumulator for record prefixes, backed by a
//! `heapless::Vec` so that the push parser allocates nothing per byte.
//!
//! The capacity is the central-header size, the largest fixed record prefix
//! the parser ever buffers.

use vstd::prelude::*;

verus! {

/// The bytes a header buffer holds, oldest first.
pub uninterp spec fn header_buf_bytes(b: HeaderBuf) -> Seq<u8>;

/// A byte accumulator of fixed capacity 46, the size of a central file
/// header.  The buffer itself lives outside the verifier; everything the
/// parser relies on is stated over [`header_buf_bytes`].
#[verifier::external_body]
#[derive(Debug)]
pub struct HeaderBuf {
    inner: heapless::Vec<u8, 46>,
}

impl HeaderBuf {
    /// Relies on heapless::Vec::new: a fresh vector is empty.
    #[verifier::external_body]
    pub fn new() -> (r: HeaderBuf)
        ensures
            header_buf_bytes(r) == Seq::<u8>::empty(),
    {
        HeaderBuf { inner: heapless::Vec::new() }
    }

    /// Relies on heapless::Vec::len: how many bytes are held.
    #[verifier::external_body]
    pub fn len(&self) -> (r: usize)
        ensures
            r == header_buf_bytes(*self).len(),
    {
        self.inner.len()
    }

    /// Relies on heapless::Vec::clear: removes every byte.
    #[verifier::external_body]
    pub fn clear(&mut self)
        ensures
            header_buf_bytes(*final(self)) == Seq::<u8>::empty(),
    {
        self.inner.clear()
    }

    /// Relies on heapless::Vec::push: appends one byte when the vector is
    /// below its capacity of 46.
    #[verifier::external_body]
    pub fn push(&mut self, b: u8)
        requires
            header_buf_bytes(*old(self)).len() < 46,
        ensures
            header_buf_bytes(*final(self))
                == header_buf_bytes(*old(self)).push(b),
    {
        let _ = self.inner.push(b);
    }

    /// Relies on heapless::Vec::as_slice: all held bytes, oldest first.
    #[verifier::external_body]
    pub fn as_slice(&self) -> (r: &[u8])
        ensures
            r@ == header_buf_bytes(*self),
    {
        self.inner.as_slice()
    }
}

} // verus!
