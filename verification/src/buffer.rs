//! The growable byte buffer in which a padded message is assembled.
//!
//! The buffer is `bytes::BytesMut`. Verus does not look inside it: what it
//! holds is named by `buffer_bytes`, and each operation used here is a thin
//! trusted function whose contract says what the operation does to those
//! bytes.
use crate::big_endian::be_bytes;
use bytes::{BufMut, BytesMut};
use vstd::prelude::*;

verus! {

/// `bytes::BytesMut`, taken as an opaque type: nothing is known of a value
/// but what the functions below say of it.
#[verifier::external_type_specification]
#[verifier::external_body]
pub struct ExBytesMut(bytes::BytesMut);

/// The bytes that a buffer holds, in the order in which they were written:
/// the slice that a `BytesMut` dereferences to.
pub uninterp spec fn buffer_bytes(buf: BytesMut) -> Seq<u8>;

/// An empty buffer with room for `capacity` bytes.
///
/// Trusted: the body is `BytesMut::with_capacity`, which returns a buffer of
/// length zero. The allocation behind it cannot exceed `isize::MAX` bytes.
#[verifier::external_body]
pub(crate) fn with_capacity(capacity: usize) -> (buf: BytesMut)
    requires
        capacity <= isize::MAX,
    ensures
        buffer_bytes(buf) == Seq::<u8>::empty(),
{
    BytesMut::with_capacity(capacity)
}

/// Appends the bytes of `src`.
///
/// Trusted: the body is `BufMut::put` on a `BytesMut` with a byte slice as
/// the source, which copies the whole slice to the end of the buffer,
/// growing it as needed. A buffer holds at most `isize::MAX` bytes.
#[verifier::external_body]
pub(crate) fn put(buf: &mut BytesMut, src: &[u8])
    requires
        buffer_bytes(*old(buf)).len() + src@.len() <= isize::MAX,
    ensures
        buffer_bytes(*final(buf)) == buffer_bytes(*old(buf)) + src@,
{
    buf.put(src)
}

/// Appends the byte `n`.
///
/// Trusted: the body is `BufMut::put_u8` on a `BytesMut`, which appends the
/// one byte.
#[verifier::external_body]
pub(crate) fn put_u8(buf: &mut BytesMut, n: u8)
    requires
        buffer_bytes(*old(buf)).len() + 1 <= isize::MAX,
    ensures
        buffer_bytes(*final(buf)) == buffer_bytes(*old(buf)).push(n),
{
    buf.put_u8(n)
}

/// Appends `n` as eight bytes, most significant first.
///
/// Trusted: the body is `BufMut::put_u64` on a `BytesMut`, which appends
/// `n.to_be_bytes()`.
#[verifier::external_body]
pub(crate) fn put_u64(buf: &mut BytesMut, n: u64)
    requires
        buffer_bytes(*old(buf)).len() + 8 <= isize::MAX,
    ensures
        buffer_bytes(*final(buf)) == buffer_bytes(*old(buf)) + be_bytes(n as nat, 8),
{
    buf.put_u64(n)
}

/// Appends `n` as sixteen bytes, most significant first.
///
/// Trusted: the body is `BufMut::put_u128` on a `BytesMut`, which appends
/// `n.to_be_bytes()`.
#[verifier::external_body]
pub(crate) fn put_u128(buf: &mut BytesMut, n: u128)
    requires
        buffer_bytes(*old(buf)).len() + 16 <= isize::MAX,
    ensures
        buffer_bytes(*final(buf)) == buffer_bytes(*old(buf)) + be_bytes(n as nat, 16),
{
    buf.put_u128(n)
}

/// The bytes of the buffer, copied into a vector.
///
/// Trusted: the body is `to_vec` on the slice that a `BytesMut` dereferences
/// to, which is the bytes written so far.
#[verifier::external_body]
pub(crate) fn to_vec(buf: &BytesMut) -> (v: Vec<u8>)
    ensures
        v@ == buffer_bytes(*buf),
{
    buf.to_vec()
}

} // verus!
