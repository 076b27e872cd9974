//! Shared, cheaply sliced byte buffers (`bytes::Bytes`).
use bytes::Bytes;
use vstd::prelude::*;

verus! {

/// `bytes::Bytes`, whose contents Verus sees through [`bytes_content`].
#[verifier::external_type_specification]
#[verifier::external_body]
pub struct ExBytes(Bytes);

/// The bytes that a `Bytes` buffer holds, in order.
pub uninterp spec fn bytes_content(b: Bytes) -> Seq<u8>;

/// Relies on `Bytes::len`: the number of bytes in the buffer.
#[verifier::external_body]
pub(crate) fn buffer_len(b: &Bytes) -> (r: usize)
    ensures
        r as int == bytes_content(*b).len(),
{
    b.len()
}

/// Relies on indexing through `Bytes`' `Deref<Target = [u8]>`: the byte at
/// position `i`.
#[verifier::external_body]
pub(crate) fn buffer_byte(b: &Bytes, i: usize) -> (r: u8)
    requires
        i < bytes_content(*b).len(),
    ensures
        r == bytes_content(*b)[i as int],
{
    b[i]
}

/// Relies on `Bytes::slice`: the bytes `[start, end)` of the buffer, sharing
/// its storage (it panics unless `start <= end <= len`).
#[verifier::external_body]
pub(crate) fn buffer_slice(b: &Bytes, start: usize, end: usize) -> (r: Bytes)
    requires
        start <= end <= bytes_content(*b).len(),
    ensures
        bytes_content(r) == bytes_content(*b).subrange(start as int, end as int),
{
    b.slice(start..end)
}

/// Relies on `impl From<Vec<u8>> for Bytes`: the buffer takes over the
/// vector's bytes.
#[verifier::external_body]
pub(crate) fn buffer_from_vec(v: Vec<u8>) -> (r: Bytes)
    ensures
        bytes_content(r) == v@,
{
    Bytes::from(v)
}

} // verus!
