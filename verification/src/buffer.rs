//! The byte buffers of the `bytes` crate, as the framing codec uses them.
//!
//! `BytesMut` and `Bytes` are opaque to the verifier. `buffered` and `frozen`
//! stand for the bytes that they hold, and every operation below is stated
//! over those two.

use vstd::prelude::*;

use bytes::{Buf, BufMut, Bytes, BytesMut};

verus! {

/// Declares `bytes::BytesMut`.
#[verifier::external_type_specification]
#[verifier::external_body]
pub struct ExBytesMut(BytesMut);

/// Declares `bytes::Bytes`.
#[verifier::external_type_specification]
#[verifier::external_body]
pub struct ExBytes(Bytes);

/// The bytes that a `BytesMut` holds, first byte first.
pub uninterp spec fn buffered(buf: BytesMut) -> Seq<u8>;

/// The bytes that a `Bytes` holds, first byte first.
pub uninterp spec fn frozen(bytes: Bytes) -> Seq<u8>;

/// The length up to which a buffer may be made to grow.
///
/// An allocation holds at most `isize::MAX` bytes. A buffer that grows doubles
/// its allocation, which holds fewer bytes in front of the contents, handed out
/// already, than the contents will have: four times their length is always
/// enough.
pub open spec fn growth_limit() -> int {
    isize::MAX as int / 4
}

/// Whether `additional` more bytes may be asked of a buffer that holds `len`.
pub(crate) fn may_grow(len: usize, additional: usize) -> (r: bool)
    ensures
        r == (len + additional <= growth_limit()),
{
    let limit: usize = isize::MAX as usize / 4;
    len <= limit && additional <= limit - len
}

/// `BytesMut::deref`: the contents as a slice.
#[verifier::external_body]
pub(crate) fn as_slice(buf: &BytesMut) -> (r: &[u8])
    ensures
        r@ == buffered(*buf),
{
    buf
}

/// `Bytes::deref`: the contents as a slice.
#[verifier::external_body]
pub(crate) fn frozen_slice(bytes: &Bytes) -> (r: &[u8])
    ensures
        r@ == frozen(*bytes),
{
    bytes
}

/// `BytesMut::split_to`: takes the first `at` bytes out of the buffer and
/// returns them. It panics where the buffer holds fewer.
#[verifier::external_body]
pub(crate) fn split_to(buf: &mut BytesMut, at: usize) -> (r: BytesMut)
    requires
        at <= buffered(*old(buf)).len(),
    ensures
        buffered(r) == buffered(*old(buf)).take(at as int),
        buffered(*final(buf)) == buffered(*old(buf)).skip(at as int),
{
    buf.split_to(at)
}

/// `Buf::advance` on a `BytesMut`: drops the first `cnt` bytes. It panics
/// where the buffer holds fewer.
#[verifier::external_body]
pub(crate) fn advance(buf: &mut BytesMut, cnt: usize)
    requires
        cnt <= buffered(*old(buf)).len(),
    ensures
        buffered(*final(buf)) == buffered(*old(buf)).skip(cnt as int),
{
    buf.advance(cnt)
}

/// `BytesMut::reserve`: makes room for `additional` more bytes and leaves the
/// contents as they are. It panics where the new capacity is too large for an
/// allocation.
#[verifier::external_body]
pub(crate) fn reserve(buf: &mut BytesMut, additional: usize)
    requires
        buffered(*old(buf)).len() + additional <= growth_limit(),
    ensures
        buffered(*final(buf)) == buffered(*old(buf)),
{
    buf.reserve(additional)
}

/// `BufMut::put_u8` on a `BytesMut`: appends one byte, growing the buffer as
/// `reserve` does.
#[verifier::external_body]
pub(crate) fn put_u8(buf: &mut BytesMut, byte: u8)
    requires
        buffered(*old(buf)).len() + 1 <= growth_limit(),
    ensures
        buffered(*final(buf)) == buffered(*old(buf)).push(byte),
{
    buf.put_u8(byte)
}

/// `BufMut::put_slice` on a `BytesMut`: appends a slice, growing the buffer as
/// `reserve` does.
#[verifier::external_body]
pub(crate) fn put_slice(buf: &mut BytesMut, src: &[u8])
    requires
        buffered(*old(buf)).len() + src@.len() <= growth_limit(),
    ensures
        buffered(*final(buf)) == buffered(*old(buf)) + src@,
{
    buf.put_slice(src)
}

/// Four times the limit still fits an allocation, and a larger limit would not.
pub proof fn law_growth_limit()
    ensures
        4 * growth_limit() <= isize::MAX < 4 * (growth_limit() + 1),
{
}

} // verus!
