//! The buffers that hold the payload of pages.
use bytes::Bytes;
use vstd::prelude::*;

verus! {

/// `bytes::Bytes`: a cheaply shared, immutable byte buffer.
#[verifier::external_type_specification]
#[verifier::external_body]
pub struct ExBytes(Bytes);

/// The bytes that a buffer holds.
pub uninterp spec fn buffer_bytes(b: Bytes) -> Seq<u8>;

/// `Bytes::copy_from_slice`: a buffer that holds a copy of `data`.
#[verifier::external_body]
pub(crate) fn copy_from_slice(data: &[u8]) -> (b: Bytes)
    ensures
        buffer_bytes(b) == data@,
{
    Bytes::copy_from_slice(data)
}

/// `Bytes::from` of a vector: a buffer that holds the bytes of the vector.
#[verifier::external_body]
pub(crate) fn from_vec(data: Vec<u8>) -> (b: Bytes)
    ensures
        buffer_bytes(b) == data@,
{
    Bytes::from(data)
}

/// `Bytes::as_ref`: the bytes of the buffer, in place.
#[verifier::external_body]
pub(crate) fn as_slice(b: &Bytes) -> (data: &[u8])
    ensures
        data@ == buffer_bytes(*b),
{
    b.as_ref()
}

} // verus!
