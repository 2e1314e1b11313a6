//! The byte buffers of the `bytes` crate, as the frame codecs use them: an
//! immutable `Bytes` payload and a growable `BytesMut` read buffer, each seen
//! through the bytes it holds.

use vstd::prelude::*;

use bytes::{Buf, BufMut, Bytes, BytesMut};

verus! {

#[verifier::external_type_specification]
#[verifier::external_body]
pub struct ExBytes(Bytes);

#[verifier::external_type_specification]
#[verifier::external_body]
pub struct ExBytesMut(BytesMut);

/// The bytes a `Bytes` holds.
pub uninterp spec fn bytes_view(b: Bytes) -> Seq<u8>;

/// The bytes a `BytesMut` holds.
pub uninterp spec fn buffer_view(b: BytesMut) -> Seq<u8>;

/// The big-endian encoding of `n`.
pub open spec fn be_u32_bytes(n: u32) -> Seq<u8> {
    seq![(n >> 24u32) as u8, (n >> 16u32) as u8, (n >> 8u32) as u8, n as u8]
}

/// The number four big-endian bytes spell.
pub open spec fn be_u32_value(b0: u8, b1: u8, b2: u8, b3: u8) -> u32 {
    ((b0 as u32) << 24u32) | ((b1 as u32) << 16u32) | ((b2 as u32) << 8u32) | (b3 as u32)
}

/// The big-endian encoding of `n` as a pair.
pub open spec fn be_u16_bytes(n: u16) -> Seq<u8> {
    seq![(n >> 8u16) as u8, n as u8]
}

pub open spec fn be_u16_value(hi: u8, lo: u8) -> u16 {
    ((hi as u16) << 8u16) | (lo as u16)
}

pub proof fn lemma_be_u32_round_trip(n: u32)
    ensures
        be_u32_value(be_u32_bytes(n)[0], be_u32_bytes(n)[1], be_u32_bytes(n)[2], be_u32_bytes(n)[3]) == n,
{
    assert((((((n >> 24u32) as u8) as u32) << 24u32) | ((((n >> 16u32) as u8) as u32) << 16u32) | ((((n
        >> 8u32) as u8) as u32) << 8u32) | ((n as u8) as u32)) == n) by (bit_vector);
}

pub proof fn lemma_be_u16_round_trip(n: u16)
    ensures
        be_u16_value(be_u16_bytes(n)[0], be_u16_bytes(n)[1]) == n,
{
    assert((((((n >> 8u16) as u8) as u16) << 8u16) | ((n as u8) as u16)) == n) by (bit_vector);
}

/// The number four big-endian bytes spell.
pub fn be_u32(b0: u8, b1: u8, b2: u8, b3: u8) -> (res: u32)
    ensures
        res == be_u32_value(b0, b1, b2, b3),
{
    ((b0 as u32) << 24u32) | ((b1 as u32) << 16u32) | ((b2 as u32) << 8u32) | (b3 as u32)
}

/// The number two big-endian bytes spell.
pub fn be_u16(hi: u8, lo: u8) -> (res: u16)
    ensures
        res == be_u16_value(hi, lo),
{
    ((hi as u16) << 8u16) | (lo as u16)
}

/// The big-endian bytes of `n`.
pub fn u16_be_bytes(n: u16) -> (res: (u8, u8))
    ensures
        seq![res.0, res.1] == be_u16_bytes(n),
{
    ((n >> 8u16) as u8, n as u8)
}

/// Calls `Bytes::copy_from_slice`: a `Bytes` holding a copy of `data`.
#[verifier::external_body]
pub(crate) fn bytes_copy(data: &[u8]) -> (res: Bytes)
    ensures
        bytes_view(res) == data@,
{
    Bytes::copy_from_slice(data)
}

/// Calls `Bytes::new`: an empty `Bytes`.
#[verifier::external_body]
pub(crate) fn bytes_empty() -> (res: Bytes)
    ensures
        bytes_view(res) == Seq::<u8>::empty(),
{
    Bytes::new()
}

/// Calls `<Bytes as AsRef<[u8]>>::as_ref`: the bytes held.
#[verifier::external_body]
pub(crate) fn bytes_slice(b: &Bytes) -> (res: &[u8])
    ensures
        res@ == bytes_view(*b),
{
    b.as_ref()
}

/// Calls `BytesMut::new`: an empty buffer.
#[verifier::external_body]
pub(crate) fn buffer_new() -> (res: BytesMut)
    ensures
        buffer_view(res) == Seq::<u8>::empty(),
{
    BytesMut::new()
}

/// Calls `BytesMut::with_capacity`: an empty buffer with room for `capacity`.
#[verifier::external_body]
pub(crate) fn buffer_with_capacity(capacity: usize) -> (res: BytesMut)
    ensures
        buffer_view(res) == Seq::<u8>::empty(),
{
    BytesMut::with_capacity(capacity)
}

/// Calls `<BytesMut as Deref>::deref`: the bytes held.
#[verifier::external_body]
pub(crate) fn buffer_slice(b: &BytesMut) -> (res: &[u8])
    ensures
        res@ == buffer_view(*b),
{
    b.as_ref()
}

/// Calls `BytesMut::extend_from_slice`, which appends `data`; growing past
/// `isize::MAX` bytes panics.
#[verifier::external_body]
pub(crate) fn buffer_extend(b: &mut BytesMut, data: &[u8])
    requires
        buffer_view(*old(b)).len() + data@.len() <= isize::MAX,
    ensures
        buffer_view(*final(b)) == buffer_view(*old(b)) + data@,
{
    b.extend_from_slice(data)
}

/// Calls `BufMut::put_u8`, which appends one byte.
#[verifier::external_body]
pub(crate) fn buffer_put_u8(b: &mut BytesMut, n: u8)
    requires
        buffer_view(*old(b)).len() + 1 <= isize::MAX,
    ensures
        buffer_view(*final(b)) == buffer_view(*old(b)).push(n),
{
    b.put_u8(n)
}

/// Calls `BufMut::put_u32`, which appends `n` in big-endian order.
#[verifier::external_body]
pub(crate) fn buffer_put_u32(b: &mut BytesMut, n: u32)
    requires
        buffer_view(*old(b)).len() + 4 <= isize::MAX,
    ensures
        buffer_view(*final(b)) == buffer_view(*old(b)) + be_u32_bytes(n),
{
    b.put_u32(n)
}

/// Calls `BufMut::put_slice`, which appends `data`.
#[verifier::external_body]
pub(crate) fn buffer_put_slice(b: &mut BytesMut, data: &[u8])
    requires
        buffer_view(*old(b)).len() + data@.len() <= isize::MAX,
    ensures
        buffer_view(*final(b)) == buffer_view(*old(b)) + data@,
{
    b.put_slice(data)
}

/// Calls `Buf::advance`, which drops the first `count` bytes; more than the
/// buffer holds panics.
#[verifier::external_body]
pub(crate) fn buffer_advance(b: &mut BytesMut, count: usize)
    requires
        count <= buffer_view(*old(b)).len(),
    ensures
        buffer_view(*final(b)) == buffer_view(*old(b)).skip(count as int),
{
    b.advance(count)
}

/// Calls `BytesMut::split_to`, which hands out the first `at` bytes and keeps
/// the rest; more than the buffer holds panics.
#[verifier::external_body]
pub(crate) fn buffer_split_to(b: &mut BytesMut, at: usize) -> (res: BytesMut)
    requires
        at <= buffer_view(*old(b)).len(),
    ensures
        buffer_view(res) == buffer_view(*old(b)).take(at as int),
        buffer_view(*final(b)) == buffer_view(*old(b)).skip(at as int),
{
    b.split_to(at)
}

/// Calls `BytesMut::freeze`, which turns the buffer into a `Bytes` holding the
/// same bytes.
#[verifier::external_body]
pub(crate) fn buffer_freeze(b: BytesMut) -> (res: Bytes)
    ensures
        bytes_view(res) == buffer_view(b),
{
    b.freeze()
}

} // verus!
