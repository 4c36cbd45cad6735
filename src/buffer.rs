//! The growable byte buffer that frames are written into and read from.

use vstd::prelude::*;
use bytes::buf::{Buf, BufMut};
use bytes::BytesMut;
use crate::header::be_bytes;

verus! {

#[verifier::external_type_specification]
#[verifier::external_body]
pub struct ExBytesMut(BytesMut);

/// The bytes that a buffer holds, first to last.
pub uninterp spec fn buffer_bytes(b: BytesMut) -> Seq<u8>;

/// Relies on `BytesMut`'s `Deref<Target = [u8]>`: the slice is the buffer's contents.
#[verifier::external_body]
pub(crate) fn contents(b: &BytesMut) -> (r: &[u8])
    ensures
        r@ == buffer_bytes(*b),
{
    &b[..]
}

/// Relies on `BufMut::put_u32` for `BytesMut`: it appends the four big-endian
/// bytes of `v` (through `extend_from_slice`, which grows the buffer and panics
/// only past `isize::MAX` bytes).
#[verifier::external_body]
pub(crate) fn put_u32(b: &mut BytesMut, v: u32)
    requires
        buffer_bytes(*old(b)).len() + 4 <= isize::MAX,
    ensures
        buffer_bytes(*final(b)) == buffer_bytes(*old(b)) + be_bytes(v),
{
    b.put_u32(v)
}

/// Relies on `BytesMut::extend_from_slice`: it appends `s`, and panics only past
/// `isize::MAX` bytes.
#[verifier::external_body]
pub(crate) fn extend_from_slice(b: &mut BytesMut, s: &[u8])
    requires
        buffer_bytes(*old(b)).len() + s@.len() <= isize::MAX,
    ensures
        buffer_bytes(*final(b)) == buffer_bytes(*old(b)) + s@,
{
    b.extend_from_slice(s)
}

/// Relies on `Buf::advance` for `BytesMut`: it drops the first `n` bytes, and
/// panics when `n` exceeds the length.
#[verifier::external_body]
pub(crate) fn advance(b: &mut BytesMut, n: usize)
    requires
        n <= buffer_bytes(*old(b)).len(),
    ensures
        buffer_bytes(*final(b)) == buffer_bytes(*old(b)).subrange(n as int, buffer_bytes(*old(b)).len() as int),
{
    b.advance(n)
}

} // verus!
