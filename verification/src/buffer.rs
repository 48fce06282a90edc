//! Byte buffers of the `bytes` crate.

use bytes::Buf;
use vstd::prelude::*;

verus! {

/// `bytes::BytesMut`, a growing buffer.
#[verifier::external_type_specification]
#[verifier::external_body]
pub struct ExBytesMut(bytes::BytesMut);

/// `bytes::Bytes`, a buffer that no longer changes.
#[verifier::external_type_specification]
#[verifier::external_body]
pub struct ExBytes(bytes::Bytes);

/// The bytes that a `bytes::BytesMut` holds.
pub uninterp spec fn buffered(b: bytes::BytesMut) -> Seq<u8>;

/// The bytes that a `bytes::Bytes` holds.
pub uninterp spec fn frozen(b: bytes::Bytes) -> Seq<u8>;

/// `bytes::BytesMut::new`: a buffer with nothing in it.
#[verifier::external_body]
pub(crate) fn new_buffer() -> (r: bytes::BytesMut)
    ensures
        buffered(r) == Seq::<u8>::empty(),
{
    bytes::BytesMut::new()
}

/// `bytes::Buf::chunk` of a `bytes::BytesMut`, whose one chunk is all it holds.
/// A buffer is never longer than `isize::MAX`.
#[verifier::external_body]
pub(crate) fn chunk(b: &bytes::BytesMut) -> (r: &[u8])
    ensures
        r@ == buffered(*b),
        r@.len() <= isize::MAX,
{
    b.chunk()
}

/// `bytes::BytesMut::extend_from_slice`: appends bytes. It panics where the buffer
/// would grow beyond `isize::MAX`.
#[verifier::external_body]
pub(crate) fn append(b: &mut bytes::BytesMut, more: &[u8])
    requires
        buffered(*old(b)).len() + more@.len() <= isize::MAX,
    ensures
        buffered(*final(b)) == buffered(*old(b)) + more@,
{
    b.extend_from_slice(more)
}

/// `bytes::Buf::advance` of a `bytes::BytesMut`: drops bytes in front.
#[verifier::external_body]
pub(crate) fn advance(b: &mut bytes::BytesMut, count: usize)
    requires
        count <= buffered(*old(b)).len(),
    ensures
        buffered(*final(b)) == buffered(*old(b)).skip(count as int),
{
    b.advance(count)
}

/// `bytes::BytesMut::split_to`: takes bytes off the front.
#[verifier::external_body]
pub(crate) fn split_to(b: &mut bytes::BytesMut, at: usize) -> (r: bytes::BytesMut)
    requires
        at <= buffered(*old(b)).len(),
    ensures
        buffered(r) == buffered(*old(b)).take(at as int),
        buffered(*final(b)) == buffered(*old(b)).skip(at as int),
{
    b.split_to(at)
}

/// `bytes::BytesMut::freeze`: the same bytes, fixed.
#[verifier::external_body]
pub(crate) fn freeze(b: bytes::BytesMut) -> (r: bytes::Bytes)
    ensures
        frozen(r) == buffered(b),
{
    b.freeze()
}

/// `bytes::Buf::copy_to_bytes` of a `bytes::BytesMut`: takes bytes off the front
/// and fixes them.
#[verifier::external_body]
pub(crate) fn copy_to_bytes(b: &mut bytes::BytesMut, count: usize) -> (r: bytes::Bytes)
    requires
        count <= buffered(*old(b)).len(),
    ensures
        frozen(r) == buffered(*old(b)).take(count as int),
        buffered(*final(b)) == buffered(*old(b)).skip(count as int),
{
    b.copy_to_bytes(count)
}

/// `bytes::Bytes` as a slice, by its `AsRef`. No slice is longer than `isize::MAX`.
#[verifier::external_body]
pub(crate) fn contents(b: &bytes::Bytes) -> (r: &[u8])
    ensures
        r@ == frozen(*b),
        r@.len() <= isize::MAX,
{
    b.as_ref()
}

/// A `bytes::Bytes` made from a vector by `From<Vec<u8>>`: the same bytes.
#[verifier::external_body]
pub(crate) fn from_vec(v: Vec<u8>) -> (r: bytes::Bytes)
    ensures
        frozen(r) == v@,
{
    bytes::Bytes::from(v)
}

} // verus!
