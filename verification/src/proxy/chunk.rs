//! Chunks of guest data: `bytes::Bytes`, and what is relied on of it.

use bytes::Bytes;
use vstd::prelude::*;

verus! {

/// `bytes::Bytes`, a shared view of contiguous bytes.
#[verifier::external_type_specification]
#[verifier::external_body]
pub struct ExBytes(Bytes);

/// The bytes that a chunk holds.
pub uninterp spec fn held(chunk: Bytes) -> Seq<u8>;

/// `Bytes::new` holds nothing.
#[verifier::external_body]
pub(crate) fn empty_chunk() -> (chunk: Bytes)
    ensures
        held(chunk) == Seq::<u8>::empty(),
{
    Bytes::new()
}

/// `Bytes`'s `Deref` hands out the bytes that it holds.
#[verifier::external_body]
pub(crate) fn chunk_bytes(chunk: &Bytes) -> (bytes: &[u8])
    ensures
        bytes@ == held(*chunk),
{
    chunk
}

/// `Bytes::slice` over the range from `at` on: what is held from there. It
/// panics where the range starts past the end.
#[verifier::external_body]
pub(crate) fn chunk_from(chunk: &Bytes, at: usize) -> (rest: Bytes)
    requires
        at <= held(*chunk).len(),
    ensures
        held(rest) == held(*chunk).skip(at as int),
{
    chunk.slice(at..)
}

/// `Bytes::copy_from_slice` holds a copy of the given bytes.
#[verifier::external_body]
pub(crate) fn chunk_of(bytes: &[u8]) -> (chunk: Bytes)
    ensures
        held(chunk) == bytes@,
{
    Bytes::copy_from_slice(bytes)
}

} // verus!
