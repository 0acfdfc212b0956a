//! Shared byte buffers of the `bytes` crate.

use bytes::Bytes;
use vstd::prelude::*;

verus! {

/// The buffer type of the `bytes` crate: an immutable sequence of bytes that is cheap to
/// clone.
#[verifier::external_type_specification]
#[verifier::external_body]
pub struct ExBytes(Bytes);

/// The bytes that a buffer holds.
pub uninterp spec fn contents(buffer: Bytes) -> Seq<u8>;

/// Calls `Bytes::from(Vec<u8>)`: a buffer with the bytes of the vector.
#[verifier::external_body]
pub(crate) fn byte_buffer(bytes: Vec<u8>) -> (buffer: Bytes)
    ensures
        contents(buffer) == bytes@,
{
    Bytes::from(bytes)
}

/// Calls the `Clone` impl of `Bytes`: a buffer with the same bytes.
#[verifier::external_body]
pub(crate) fn clone_buffer(buffer: &Bytes) -> (copy: Bytes)
    ensures
        contents(copy) == contents(*buffer),
{
    buffer.clone()
}

/// Calls the `Deref` impl of `Bytes`: the bytes of the buffer as a slice.
#[verifier::external_body]
pub(crate) fn byte_slice(buffer: &Bytes) -> (bytes: &[u8])
    ensures
        bytes@ == contents(*buffer),
{
    buffer
}

} // verus!
