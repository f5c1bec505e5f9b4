//! Payload buffers.
//!
//! Frame payloads are held in `bytes::Bytes`. The verifier knows such a
//! buffer only through [`bytes_view`], the sequence of bytes it holds, and
//! through the contracts of the few operations declared here. Those
//! contracts are taken on trust from the `bytes` crate.

use bytes::Bytes;
use vstd::prelude::*;

verus! {

/// `bytes::Bytes`, an immutable, cheaply cloned byte buffer.
#[verifier::external_type_specification]
#[verifier::external_body]
pub struct ExBytes(bytes::Bytes);

/// The bytes that a buffer holds, first to last.
pub uninterp spec fn bytes_view(b: Bytes) -> Seq<u8>;

/// `Bytes::new`: a buffer that holds nothing.
pub assume_specification[ Bytes::new ]() -> (b: Bytes)
    ensures
        bytes_view(b) == Seq::<u8>::empty(),
;

/// `Bytes::len`: the number of bytes held.
pub assume_specification[ Bytes::len ](b: &Bytes) -> (n: usize)
    ensures
        n == bytes_view(*b).len(),
;

/// `Bytes::slice`: a buffer holding the bytes at `begin..end`. The crate
/// panics unless `begin <= end <= len`, so that is required.
pub assume_specification[ Bytes::slice ](b: &Bytes, begin: usize, end: usize) -> (r: Bytes)
    requires
        begin <= end <= bytes_view(*b).len(),
    ensures
        bytes_view(r) == bytes_view(*b).subrange(begin as int, end as int),
;

/// `Bytes::extend_from_slice`: appends `extend` to the buffer. The crate
/// panics when the new length does not fit in `usize`.
pub assume_specification[ Bytes::extend_from_slice ](b: &mut Bytes, extend: &[u8])
    requires
        bytes_view(*old(b)).len() + extend@.len() <= usize::MAX,
    ensures
        bytes_view(*final(b)) == bytes_view(*old(b)) + extend@,
;

/// `Clone for Bytes`: the clone holds the same bytes.
pub assume_specification[ <Bytes as Clone>::clone ](b: &Bytes) -> (r: Bytes)
    ensures
        bytes_view(r) == bytes_view(*b),
;

/// `From<Vec<u8>> for Bytes`: the buffer holds what the vector held.
#[verifier::external_body]
pub(crate) fn bytes_from_vec(v: Vec<u8>) -> (b: Bytes)
    ensures
        bytes_view(b) == v@,
{
    Bytes::from(v)
}

/// `Deref for Bytes`: the held bytes as a slice.
#[verifier::external_body]
pub(crate) fn bytes_as_slice(b: &Bytes) -> (s: &[u8])
    ensures
        s@ == bytes_view(*b),
{
    b
}

} // verus!
