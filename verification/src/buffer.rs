//! Byte buffers from the `bytes` crate, and the few standard conversions
//! between bytes and text that the codecs need.
use bytes::{Buf, BufMut, Bytes, BytesMut};
use vstd::prelude::*;
use vstd::utf8::*;

verus! {

#[verifier::external_type_specification]
#[verifier::external_body]
pub struct ExBytesMut(bytes::BytesMut);

#[verifier::external_type_specification]
#[verifier::external_body]
pub struct ExBytes(bytes::Bytes);

/// An I/O error of the standard library, carried by the codecs' error
/// types for the transports that read and write their frames.
#[verifier::external_type_specification]
#[verifier::external_body]
pub struct ExIoError(std::io::Error);

/// The error of the standard library's UTF-8 check: where valid UTF-8
/// stops.
#[verifier::external_type_specification]
#[verifier::external_body]
pub struct ExUtf8Error(std::str::Utf8Error);

/// The bytes held by a `BytesMut`, in order.
pub uninterp spec fn bytes_mut_seq(b: BytesMut) -> Seq<u8>;

/// The bytes held by a `Bytes`, in order.
pub uninterp spec fn bytes_seq(b: Bytes) -> Seq<u8>;

/// Big-endian encoding of a 16-bit integer.
pub open spec fn be_u16_bytes(v: u16) -> Seq<u8> {
    seq![(v / 256) as u8, (v % 256) as u8]
}

/// Big-endian encoding of a 32-bit integer.
pub open spec fn be_u32_bytes(v: u32) -> Seq<u8> {
    seq![(v / 16777216) as u8, ((v / 65536) % 256) as u8, ((v / 256) % 256) as u8, (v % 256) as u8]
}

/// The 16-bit integer whose big-endian encoding starts `s`.
pub open spec fn be_u16_value(s: Seq<u8>) -> u16 {
    (s[0] * 256 + s[1]) as u16
}

/// The 32-bit integer whose big-endian encoding starts `s`.
pub open spec fn be_u32_value(s: Seq<u8>) -> u32 {
    (s[0] * 16777216 + s[1] * 65536 + s[2] * 256 + s[3]) as u32
}

pub proof fn lemma_be_u16_roundtrip(v: u16)
    ensures
        be_u16_bytes(v).len() == 2,
        be_u16_value(be_u16_bytes(v)) == v,
{
}

pub proof fn lemma_be_u32_roundtrip(v: u32)
    ensures
        be_u32_bytes(v).len() == 4,
        be_u32_value(be_u32_bytes(v)) == v,
{
}

/// `BytesMut::new`: an empty buffer.
#[verifier::external_body]
pub(crate) fn bytes_mut_new() -> (r: BytesMut)
    ensures
        bytes_mut_seq(r) == Seq::<u8>::empty(),
{
    BytesMut::new()
}

/// `BytesMut::len`: the number of bytes held.
#[verifier::external_body]
pub(crate) fn bytes_mut_len(b: &BytesMut) -> (r: usize)
    ensures
        r == bytes_mut_seq(*b).len(),
{
    b.len()
}

/// `BufMut::put_u8` on `BytesMut`: appends one byte.
#[verifier::external_body]
pub(crate) fn bytes_mut_put_u8(b: &mut BytesMut, v: u8)
    requires
        bytes_mut_seq(*old(b)).len() < usize::MAX,
    ensures
        bytes_mut_seq(*final(b)) == bytes_mut_seq(*old(b)).push(v),
{
    b.put_u8(v)
}

/// `BufMut::put_u16` on `BytesMut`: appends two bytes, most significant first.
#[verifier::external_body]
pub(crate) fn bytes_mut_put_u16(b: &mut BytesMut, v: u16)
    requires
        bytes_mut_seq(*old(b)).len() + 2 <= usize::MAX,
    ensures
        bytes_mut_seq(*final(b)) == bytes_mut_seq(*old(b)) + be_u16_bytes(v),
{
    b.put_u16(v)
}

/// `BufMut::put_u32` on `BytesMut`: appends four bytes, most significant first.
#[verifier::external_body]
pub(crate) fn bytes_mut_put_u32(b: &mut BytesMut, v: u32)
    requires
        bytes_mut_seq(*old(b)).len() + 4 <= usize::MAX,
    ensures
        bytes_mut_seq(*final(b)) == bytes_mut_seq(*old(b)) + be_u32_bytes(v),
{
    b.put_u32(v)
}

/// `BytesMut::extend_from_slice`: appends the bytes of `s`.
#[verifier::external_body]
pub(crate) fn bytes_mut_extend(b: &mut BytesMut, s: &[u8])
    requires
        bytes_mut_seq(*old(b)).len() + s@.len() <= usize::MAX,
    ensures
        bytes_mut_seq(*final(b)) == bytes_mut_seq(*old(b)) + s@,
{
    b.extend_from_slice(s)
}

/// `IndexMut` on `BytesMut`: overwrites the byte at `i`.
#[verifier::external_body]
pub(crate) fn bytes_mut_set(b: &mut BytesMut, i: usize, v: u8)
    requires
        i < bytes_mut_seq(*old(b)).len(),
    ensures
        bytes_mut_seq(*final(b)) == bytes_mut_seq(*old(b)).update(i as int, v),
{
    b[i] = v;
}

/// `Deref` of `BytesMut`: the bytes held, as a slice.
#[verifier::external_body]
pub(crate) fn bytes_mut_as_slice(b: &BytesMut) -> (r: &[u8])
    ensures
        r@ == bytes_mut_seq(*b),
{
    &b[..]
}

/// `BytesMut::split_to`: removes the first `at` bytes and returns them.
#[verifier::external_body]
pub(crate) fn bytes_mut_split_to(b: &mut BytesMut, at: usize) -> (r: BytesMut)
    requires
        at <= bytes_mut_seq(*old(b)).len(),
    ensures
        bytes_mut_seq(r) == bytes_mut_seq(*old(b)).take(at as int),
        bytes_mut_seq(*final(b)) == bytes_mut_seq(*old(b)).skip(at as int),
{
    b.split_to(at)
}

/// `Buf::get_u8` on `BytesMut`: removes and returns the first byte.
#[verifier::external_body]
pub(crate) fn bytes_mut_get_u8(b: &mut BytesMut) -> (r: u8)
    requires
        bytes_mut_seq(*old(b)).len() >= 1,
    ensures
        r == bytes_mut_seq(*old(b))[0],
        bytes_mut_seq(*final(b)) == bytes_mut_seq(*old(b)).skip(1),
{
    b.get_u8()
}

/// `BytesMut::freeze`: the same bytes as an immutable `Bytes`.
#[verifier::external_body]
pub(crate) fn bytes_mut_freeze(b: BytesMut) -> (r: Bytes)
    ensures
        bytes_seq(r) == bytes_mut_seq(b),
{
    b.freeze()
}

/// `Clone` for `Bytes`: another handle on the same bytes.
pub assume_specification[ <bytes::Bytes as core::clone::Clone>::clone ](b: &Bytes) -> (r: Bytes)
    ensures
        bytes_seq(r) == bytes_seq(*b),
;

/// `Bytes::new`: no bytes.
#[verifier::external_body]
pub(crate) fn bytes_new() -> (r: Bytes)
    ensures
        bytes_seq(r) == Seq::<u8>::empty(),
{
    Bytes::new()
}

/// `Bytes::copy_from_slice`: a `Bytes` holding a copy of `s`.
#[verifier::external_body]
pub(crate) fn bytes_copy_from_slice(s: &[u8]) -> (r: Bytes)
    ensures
        bytes_seq(r) == s@,
{
    Bytes::copy_from_slice(s)
}

/// `Bytes::len`: the number of bytes held.
#[verifier::external_body]
pub(crate) fn bytes_len(b: &Bytes) -> (r: usize)
    ensures
        r == bytes_seq(*b).len(),
{
    b.len()
}

/// `Deref` of `Bytes`: the bytes held, as a slice.
#[verifier::external_body]
pub(crate) fn bytes_as_slice(b: &Bytes) -> (r: &[u8])
    ensures
        r@ == bytes_seq(*b),
{
    &b[..]
}

/// `Buf::advance` on `Bytes`: drops the first `n` bytes.
#[verifier::external_body]
pub(crate) fn bytes_advance(b: &mut Bytes, n: usize)
    requires
        n <= bytes_seq(*old(b)).len(),
    ensures
        bytes_seq(*final(b)) == bytes_seq(*old(b)).skip(n as int),
{
    b.advance(n)
}

/// `Bytes::split_to`: removes the first `at` bytes and returns them.
#[verifier::external_body]
pub(crate) fn bytes_split_to(b: &mut Bytes, at: usize) -> (r: Bytes)
    requires
        at <= bytes_seq(*old(b)).len(),
    ensures
        bytes_seq(r) == bytes_seq(*old(b)).take(at as int),
        bytes_seq(*final(b)) == bytes_seq(*old(b)).skip(at as int),
{
    b.split_to(at)
}

/// `Buf::get_u8` on `Bytes`: removes and returns the first byte.
#[verifier::external_body]
pub(crate) fn bytes_get_u8(b: &mut Bytes) -> (r: u8)
    requires
        bytes_seq(*old(b)).len() >= 1,
    ensures
        r == bytes_seq(*old(b))[0],
        bytes_seq(*final(b)) == bytes_seq(*old(b)).skip(1),
{
    b.get_u8()
}

/// `Buf::get_u16` on `Bytes`: removes the first two bytes and returns them
/// read as a big-endian integer.
#[verifier::external_body]
pub(crate) fn bytes_get_u16(b: &mut Bytes) -> (r: u16)
    requires
        bytes_seq(*old(b)).len() >= 2,
    ensures
        r == be_u16_value(bytes_seq(*old(b))),
        bytes_seq(*final(b)) == bytes_seq(*old(b)).skip(2),
{
    b.get_u16()
}

/// `Buf::get_u32` on `Bytes`: removes the first four bytes and returns them
/// read as a big-endian integer.
#[verifier::external_body]
pub(crate) fn bytes_get_u32(b: &mut Bytes) -> (r: u32)
    requires
        bytes_seq(*old(b)).len() >= 4,
    ensures
        r == be_u32_value(bytes_seq(*old(b))),
        bytes_seq(*final(b)) == bytes_seq(*old(b)).skip(4),
{
    b.get_u32()
}

/// `std::str::from_utf8`: the text that `v` encodes when `v` is valid
/// UTF-8, else the error that says where it stops being so.
#[verifier::external_body]
pub(crate) fn str_from_utf8(v: &[u8]) -> (r: Result<&str, std::str::Utf8Error>)
    ensures
        r is Ok <==> valid_utf8(v@),
        r matches Ok(s) ==> s@ == decode_utf8(v@),
{
    std::str::from_utf8(v)
}

/// `String::from_utf8`: the text that `v` encodes, when `v` is valid UTF-8.
#[verifier::external_body]
pub(crate) fn string_from_utf8(v: Vec<u8>) -> (r: Option<String>)
    ensures
        r is Some <==> valid_utf8(v@),
        r matches Some(s) ==> s@ == decode_utf8(v@),
{
    String::from_utf8(v).ok()
}

} // verus!
