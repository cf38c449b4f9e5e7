//! Little-endian encoding of fixed-width integers, as the bytecode formats
//! lay them out, and UTF-8 text.

use vstd::prelude::*;
use vstd::utf8::*;
use byteorder::{ByteOrder, LittleEndian, WriteBytesExt};

verus! {

/// The two bytes of `x`, least significant first.
pub open spec fn le16(x: u16) -> Seq<u8> {
    seq![(x & 0xff) as u8, ((x >> 8u16) & 0xff) as u8]
}

/// The four bytes of `x`, least significant first.
pub open spec fn le32(x: u32) -> Seq<u8> {
    seq![
        (x & 0xff) as u8,
        ((x >> 8u32) & 0xff) as u8,
        ((x >> 16u32) & 0xff) as u8,
        ((x >> 24u32) & 0xff) as u8,
    ]
}

/// The eight bytes of `x`, least significant first.
pub open spec fn le64(x: u64) -> Seq<u8> {
    seq![
        (x & 0xff) as u8,
        ((x >> 8u64) & 0xff) as u8,
        ((x >> 16u64) & 0xff) as u8,
        ((x >> 24u64) & 0xff) as u8,
        ((x >> 32u64) & 0xff) as u8,
        ((x >> 40u64) & 0xff) as u8,
        ((x >> 48u64) & 0xff) as u8,
        ((x >> 56u64) & 0xff) as u8,
    ]
}

/// The integer whose little-endian bytes are `b0, b1`.
pub open spec fn from_le16(b0: u8, b1: u8) -> u16 {
    (b0 as u16) | ((b1 as u16) << 8u16)
}

/// The integer whose little-endian bytes are `b0 .. b3`.
pub open spec fn from_le32(b0: u8, b1: u8, b2: u8, b3: u8) -> u32 {
    (b0 as u32) | ((b1 as u32) << 8u32) | ((b2 as u32) << 16u32) | ((b3 as u32) << 24u32)
}

/// The integer whose little-endian bytes are `b0 .. b7`.
pub open spec fn from_le64(b0: u8, b1: u8, b2: u8, b3: u8, b4: u8, b5: u8, b6: u8, b7: u8) -> u64 {
    (b0 as u64) | ((b1 as u64) << 8u64) | ((b2 as u64) << 16u64) | ((b3 as u64) << 24u64) | ((
    b4 as u64) << 32u64) | ((b5 as u64) << 40u64) | ((b6 as u64) << 48u64) | ((b7 as u64)
        << 56u64)
}

/// The 16-bit integer stored little-endian at `p` in `s`.
pub open spec fn get16(s: Seq<u8>, p: int) -> u16 {
    from_le16(s[p], s[p + 1])
}

/// The 32-bit integer stored little-endian at `p` in `s`.
pub open spec fn get32(s: Seq<u8>, p: int) -> u32 {
    from_le32(s[p], s[p + 1], s[p + 2], s[p + 3])
}

/// The 64-bit integer stored little-endian at `p` in `s`.
pub open spec fn get64(s: Seq<u8>, p: int) -> u64 {
    from_le64(s[p], s[p + 1], s[p + 2], s[p + 3], s[p + 4], s[p + 5], s[p + 6], s[p + 7])
}

pub proof fn lemma_le16_roundtrip(x: u16)
    ensures
        from_le16(le16(x)[0], le16(x)[1]) == x,
{
    assert(from_le16((x & 0xff) as u8, ((x >> 8u16) & 0xff) as u8) == x) by (bit_vector);
}

pub proof fn lemma_le32_roundtrip(x: u32)
    ensures
        from_le32(le32(x)[0], le32(x)[1], le32(x)[2], le32(x)[3]) == x,
{
    assert(from_le32(
        (x & 0xff) as u8,
        ((x >> 8u32) & 0xff) as u8,
        ((x >> 16u32) & 0xff) as u8,
        ((x >> 24u32) & 0xff) as u8,
    ) == x) by (bit_vector);
}

pub proof fn lemma_le64_roundtrip(x: u64)
    ensures
        from_le64(
            le64(x)[0],
            le64(x)[1],
            le64(x)[2],
            le64(x)[3],
            le64(x)[4],
            le64(x)[5],
            le64(x)[6],
            le64(x)[7],
        ) == x,
{
    assert(from_le64(
        (x & 0xff) as u8,
        ((x >> 8u64) & 0xff) as u8,
        ((x >> 16u64) & 0xff) as u8,
        ((x >> 24u64) & 0xff) as u8,
        ((x >> 32u64) & 0xff) as u8,
        ((x >> 40u64) & 0xff) as u8,
        ((x >> 48u64) & 0xff) as u8,
        ((x >> 56u64) & 0xff) as u8,
    ) == x) by (bit_vector);
}

/// Reading a 16-bit integer where one was written gives it back.
pub proof fn lemma_get16(a: Seq<u8>, x: u16, b: Seq<u8>)
    ensures
        get16(a + le16(x) + b, a.len() as int) == x,
{
    lemma_le16_roundtrip(x);
    let s = a + le16(x) + b;
    assert(s[a.len() as int] == le16(x)[0]);
    assert(s[a.len() as int + 1] == le16(x)[1]);
}

/// Reading a 32-bit integer where one was written gives it back.
pub proof fn lemma_get32(a: Seq<u8>, x: u32, b: Seq<u8>)
    ensures
        get32(a + le32(x) + b, a.len() as int) == x,
{
    lemma_le32_roundtrip(x);
    let s = a + le32(x) + b;
    assert(s[a.len() as int] == le32(x)[0]);
    assert(s[a.len() as int + 1] == le32(x)[1]);
    assert(s[a.len() as int + 2] == le32(x)[2]);
    assert(s[a.len() as int + 3] == le32(x)[3]);
}

/// Reading a 64-bit integer where one was written gives it back.
pub proof fn lemma_get64(a: Seq<u8>, x: u64, b: Seq<u8>)
    ensures
        get64(a + le64(x) + b, a.len() as int) == x,
{
    lemma_le64_roundtrip(x);
    let s = a + le64(x) + b;
    assert(s[a.len() as int] == le64(x)[0]);
    assert(s[a.len() as int + 1] == le64(x)[1]);
    assert(s[a.len() as int + 2] == le64(x)[2]);
    assert(s[a.len() as int + 3] == le64(x)[3]);
    assert(s[a.len() as int + 4] == le64(x)[4]);
    assert(s[a.len() as int + 5] == le64(x)[5]);
    assert(s[a.len() as int + 6] == le64(x)[6]);
    assert(s[a.len() as int + 7] == le64(x)[7]);
}

/// Appends `x` to `buf` little-endian through byteorder's
/// `WriteBytesExt::write_u16::<LittleEndian>`: the vector grows by the two
/// bytes of `x`, least significant first; writing into a `Vec` cannot fail.
#[verifier::external_body]
pub(crate) fn push_u16_le(buf: &mut Vec<u8>, x: u16)
    ensures
        final(buf)@ == old(buf)@ + le16(x),
{
    buf.write_u16::<LittleEndian>(x).unwrap();
}

/// Appends `x` to `buf` little-endian through byteorder's
/// `WriteBytesExt::write_u32::<LittleEndian>`: the vector grows by the four
/// bytes of `x`, least significant first.
#[verifier::external_body]
pub(crate) fn push_u32_le(buf: &mut Vec<u8>, x: u32)
    ensures
        final(buf)@ == old(buf)@ + le32(x),
{
    buf.write_u32::<LittleEndian>(x).unwrap();
}

/// Appends `x` to `buf` little-endian through byteorder's
/// `WriteBytesExt::write_u64::<LittleEndian>`: the vector grows by the eight
/// bytes of `x`, least significant first.
#[verifier::external_body]
pub(crate) fn push_u64_le(buf: &mut Vec<u8>, x: u64)
    ensures
        final(buf)@ == old(buf)@ + le64(x),
{
    buf.write_u64::<LittleEndian>(x).unwrap();
}

/// byteorder's `LittleEndian::read_u16` on the bytes of `buf` from `p` on: the
/// integer whose little-endian bytes are `buf[p]`, `buf[p + 1]`.
#[verifier::external_body]
pub(crate) fn read_u16_le(buf: &[u8], p: usize) -> (r: u16)
    requires
        p + 2 <= buf@.len(),
    ensures
        r == get16(buf@, p as int),
{
    LittleEndian::read_u16(&buf[p..])
}

/// byteorder's `LittleEndian::read_u32` on the bytes of `buf` from `p` on.
#[verifier::external_body]
pub(crate) fn read_u32_le(buf: &[u8], p: usize) -> (r: u32)
    requires
        p + 4 <= buf@.len(),
    ensures
        r == get32(buf@, p as int),
{
    LittleEndian::read_u32(&buf[p..])
}

/// byteorder's `LittleEndian::read_u64` on the bytes of `buf` from `p` on.
#[verifier::external_body]
pub(crate) fn read_u64_le(buf: &[u8], p: usize) -> (r: u64)
    requires
        p + 8 <= buf@.len(),
    ensures
        r == get64(buf@, p as int),
{
    LittleEndian::read_u64(&buf[p..])
}

/// std's `String::from_utf8`: a string exactly when the bytes are valid
/// UTF-8, and then the string whose characters they encode.
#[verifier::external_body]
pub(crate) fn string_from_utf8(bytes: Vec<u8>) -> (r: Option<String>)
    ensures
        match r {
            Some(s) => valid_utf8(bytes@) && s@ == decode_utf8(bytes@),
            None => !valid_utf8(bytes@),
        },
{
    String::from_utf8(bytes).ok()
}

/// The bytes of a string are valid UTF-8 and decode back to it.
pub proof fn lemma_utf8_roundtrip(chars: Seq<char>)
    ensures
        valid_utf8(encode_utf8(chars)),
        decode_utf8(encode_utf8(chars)) == chars,
{
    encode_utf8_valid_utf8(chars);
    encode_utf8_decode_utf8(chars);
}

} // verus!
