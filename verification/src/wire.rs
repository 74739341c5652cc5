//! Little- and big-endian integer encodings, read and written through `byteorder`.

use vstd::prelude::*;
use byteorder::{BigEndian, ByteOrder, LittleEndian};

verus! {

/// The value of two bytes read as a little-endian `u16`.
pub open spec fn u16_le(b0: u8, b1: u8) -> u16 {
    ((b0 as u16) | ((b1 as u16) << 8u16)) as u16
}

/// The value of four bytes read as a little-endian `u32`.
pub open spec fn u32_le(b0: u8, b1: u8, b2: u8, b3: u8) -> u32 {
    ((b0 as u32) | ((b1 as u32) << 8u32) | ((b2 as u32) << 16u32) | ((b3 as u32) << 24u32)) as u32
}

/// The first two bytes of `s` read as a little-endian `u16`.
pub open spec fn seq_u16_le(s: Seq<u8>) -> u16 {
    u16_le(s[0], s[1])
}

/// The first four bytes of `s` read as a little-endian `u32`.
pub open spec fn seq_u32_le(s: Seq<u8>) -> u32 {
    u32_le(s[0], s[1], s[2], s[3])
}

/// The first two bytes of `s` read as a big-endian `u16`.
pub open spec fn seq_u16_be(s: Seq<u8>) -> u16 {
    u16_le(s[1], s[0])
}

/// The first four bytes of `s` read as a big-endian `u32`.
pub open spec fn seq_u32_be(s: Seq<u8>) -> u32 {
    u32_le(s[3], s[2], s[1], s[0])
}

/// The little-endian encoding of a `u16`.
pub open spec fn u16_le_bytes(n: u16) -> Seq<u8> {
    seq![(n & 0xffu16) as u8, ((n >> 8u16) & 0xffu16) as u8]
}

/// The little-endian encoding of a `u32`.
pub open spec fn u32_le_bytes(n: u32) -> Seq<u8> {
    seq![
        (n & 0xffu32) as u8,
        ((n >> 8u32) & 0xffu32) as u8,
        ((n >> 16u32) & 0xffu32) as u8,
        ((n >> 24u32) & 0xffu32) as u8,
    ]
}

/// The big-endian encoding of a `u16`.
pub open spec fn u16_be_bytes(n: u16) -> Seq<u8> {
    seq![((n >> 8u16) & 0xffu16) as u8, (n & 0xffu16) as u8]
}

/// The big-endian encoding of a `u32`.
pub open spec fn u32_be_bytes(n: u32) -> Seq<u8> {
    seq![
        ((n >> 24u32) & 0xffu32) as u8,
        ((n >> 16u32) & 0xffu32) as u8,
        ((n >> 8u32) & 0xffu32) as u8,
        (n & 0xffu32) as u8,
    ]
}

/// The little-endian encoding of an `i16`.
pub open spec fn i16_le_bytes(n: i16) -> Seq<u8> {
    u16_le_bytes(n as u16)
}

/// The little-endian encoding of an `i32`.
pub open spec fn i32_le_bytes(n: i32) -> Seq<u8> {
    u32_le_bytes(n as u32)
}

/// Decoding a little-endian `u16` undoes its encoding, and the other way round.
pub proof fn lemma_u16_le_roundtrip(n: u16, b0: u8, b1: u8)
    ensures
        u16_le((n & 0xffu16) as u8, ((n >> 8u16) & 0xffu16) as u8) == n,
        u16_le(b0, b1) & 0xffu16 == b0 as u16,
        (u16_le(b0, b1) >> 8u16) & 0xffu16 == b1 as u16,
{
    assert(u16_le((n & 0xffu16) as u8, ((n >> 8u16) & 0xffu16) as u8) == n) by (bit_vector);
    assert(u16_le(b0, b1) & 0xffu16 == b0 as u16) by (bit_vector);
    assert((u16_le(b0, b1) >> 8u16) & 0xffu16 == b1 as u16) by (bit_vector);
}

/// Decoding a little-endian `u32` undoes its encoding.
pub proof fn lemma_u32_le_roundtrip(n: u32)
    ensures
        u32_le(
            (n & 0xffu32) as u8,
            ((n >> 8u32) & 0xffu32) as u8,
            ((n >> 16u32) & 0xffu32) as u8,
            ((n >> 24u32) & 0xffu32) as u8,
        ) == n,
{
    assert(u32_le(
        (n & 0xffu32) as u8,
        ((n >> 8u32) & 0xffu32) as u8,
        ((n >> 16u32) & 0xffu32) as u8,
        ((n >> 24u32) & 0xffu32) as u8,
    ) == n) by (bit_vector);
}

/// Encoding a decoded little-endian `u32` gives its bytes back.
pub proof fn lemma_u32_le_bytes_of(b0: u8, b1: u8, b2: u8, b3: u8)
    ensures
        u32_le_bytes(u32_le(b0, b1, b2, b3)) == seq![b0, b1, b2, b3],
{
    let n = u32_le(b0, b1, b2, b3);
    assert((n & 0xffu32) as u8 == b0 && ((n >> 8u32) & 0xffu32) as u8 == b1) by (bit_vector)
        requires
            n == u32_le(b0, b1, b2, b3),
    ;
    assert(((n >> 16u32) & 0xffu32) as u8 == b2 && ((n >> 24u32) & 0xffu32) as u8 == b3) by (bit_vector)
        requires
            n == u32_le(b0, b1, b2, b3),
    ;
    assert(u32_le_bytes(n) =~= seq![b0, b1, b2, b3]);
}

/// Casting to the unsigned type of the same width and back gives the value back.
pub proof fn lemma_signed_roundtrip(a: i16, b: i32)
    ensures
        (a as u16) as i16 == a,
        (b as u32) as i32 == b,
{
    assert((a as u16) as i16 == a) by (bit_vector);
    assert((b as u32) as i32 == b) by (bit_vector);
}

/// Reads a little-endian `u16` from the start of `buf` with `byteorder`.
///
/// `LittleEndian::read_u16` decodes `buf[0]` and `buf[1]` as the low and high byte; it panics
/// on a shorter buffer.
#[verifier::external_body]
pub(crate) fn read_u16_le(buf: &[u8]) -> (r: u16)
    requires
        buf.len() >= 2,
    ensures
        r == seq_u16_le(buf@),
{
    LittleEndian::read_u16(buf)
}

/// Reads a little-endian `u32` from the start of `buf` with `byteorder`.
///
/// `LittleEndian::read_u32` decodes the first four bytes, lowest first; it panics on a
/// shorter buffer.
#[verifier::external_body]
pub(crate) fn read_u32_le(buf: &[u8]) -> (r: u32)
    requires
        buf.len() >= 4,
    ensures
        r == seq_u32_le(buf@),
{
    LittleEndian::read_u32(buf)
}

/// Reads a little-endian `i16` from the start of `buf` with `byteorder`.
///
/// `LittleEndian::read_i16` is `read_u16` reinterpreted as signed; it panics on a shorter
/// buffer.
#[verifier::external_body]
pub(crate) fn read_i16_le(buf: &[u8]) -> (r: i16)
    requires
        buf.len() >= 2,
    ensures
        r == seq_u16_le(buf@) as i16,
{
    LittleEndian::read_i16(buf)
}

/// Reads a little-endian `i32` from the start of `buf` with `byteorder`.
///
/// `LittleEndian::read_i32` is `read_u32` reinterpreted as signed; it panics on a shorter
/// buffer.
#[verifier::external_body]
pub(crate) fn read_i32_le(buf: &[u8]) -> (r: i32)
    requires
        buf.len() >= 4,
    ensures
        r == seq_u32_le(buf@) as i32,
{
    LittleEndian::read_i32(buf)
}

/// Reads a big-endian `u16` from the start of `buf` with `byteorder`.
///
/// `BigEndian::read_u16` decodes `buf[0]` as the high byte; it panics on a shorter buffer.
#[verifier::external_body]
pub(crate) fn read_u16_be(buf: &[u8]) -> (r: u16)
    requires
        buf.len() >= 2,
    ensures
        r == seq_u16_be(buf@),
{
    BigEndian::read_u16(buf)
}

/// Reads a big-endian `u32` from the start of `buf` with `byteorder`.
///
/// `BigEndian::read_u32` decodes the first four bytes, highest first; it panics on a shorter
/// buffer.
#[verifier::external_body]
pub(crate) fn read_u32_be(buf: &[u8]) -> (r: u32)
    requires
        buf.len() >= 4,
    ensures
        r == seq_u32_be(buf@),
{
    BigEndian::read_u32(buf)
}

/// Encodes a `u16` in little-endian order with `byteorder`.
///
/// `LittleEndian::write_u16` stores the low byte first.
#[verifier::external_body]
pub(crate) fn write_u16_le(n: u16) -> (r: [u8; 2])
    ensures
        r@ == u16_le_bytes(n),
{
    let mut b = [0u8; 2];
    LittleEndian::write_u16(&mut b, n);
    b
}

/// Encodes a `u32` in little-endian order with `byteorder`.
///
/// `LittleEndian::write_u32` stores the lowest byte first.
#[verifier::external_body]
pub(crate) fn write_u32_le(n: u32) -> (r: [u8; 4])
    ensures
        r@ == u32_le_bytes(n),
{
    let mut b = [0u8; 4];
    LittleEndian::write_u32(&mut b, n);
    b
}

/// Encodes an `i16` in little-endian order with `byteorder`.
///
/// `LittleEndian::write_i16` writes the two's-complement bits as `write_u16` does.
#[verifier::external_body]
pub(crate) fn write_i16_le(n: i16) -> (r: [u8; 2])
    ensures
        r@ == i16_le_bytes(n),
{
    let mut b = [0u8; 2];
    LittleEndian::write_i16(&mut b, n);
    b
}

/// Encodes an `i32` in little-endian order with `byteorder`.
///
/// `LittleEndian::write_i32` writes the two's-complement bits as `write_u32` does.
#[verifier::external_body]
pub(crate) fn write_i32_le(n: i32) -> (r: [u8; 4])
    ensures
        r@ == i32_le_bytes(n),
{
    let mut b = [0u8; 4];
    LittleEndian::write_i32(&mut b, n);
    b
}

/// Encodes a `u16` in big-endian order with `byteorder`.
///
/// `BigEndian::write_u16` stores the high byte first.
#[verifier::external_body]
pub(crate) fn write_u16_be(n: u16) -> (r: [u8; 2])
    ensures
        r@ == u16_be_bytes(n),
{
    let mut b = [0u8; 2];
    BigEndian::write_u16(&mut b, n);
    b
}

/// Encodes a `u32` in big-endian order with `byteorder`.
///
/// `BigEndian::write_u32` stores the highest byte first.
#[verifier::external_body]
pub(crate) fn write_u32_be(n: u32) -> (r: [u8; 4])
    ensures
        r@ == u32_be_bytes(n),
{
    let mut b = [0u8; 4];
    BigEndian::write_u32(&mut b, n);
    b
}

/// Appends the items of `bytes` to `out`.
pub fn push_all<T: Copy>(out: &mut Vec<T>, bytes: &[T])
    ensures
        final(out)@ == old(out)@ + bytes@,
{
    let mut i: usize = 0;
    while i < bytes.len()
        invariant
            i <= bytes.len(),
            out@ == old(out)@ + bytes@.subrange(0, i as int),
        decreases bytes.len() - i,
    {
        out.push(bytes[i]);
        i = i + 1;
        assert(bytes@.subrange(0, i as int) == bytes@.subrange(0, (i - 1) as int).push(bytes@[i - 1]));
    }
    assert(bytes@.subrange(0, bytes.len() as int) == bytes@);
}

/// The little-endian `u16` at `p`.
pub fn u16_le_at(buf: &[u8], p: usize) -> (r: u16)
    requires
        p + 2 <= buf.len(),
    ensures
        r == seq_u16_le(buf@.skip(p as int)),
{
    let r = read_u16_le(vstd::slice::slice_subrange(buf, p, p + 2));
    assert(buf@.subrange(p as int, p + 2)[0] == buf@.skip(p as int)[0]);
    assert(buf@.subrange(p as int, p + 2)[1] == buf@.skip(p as int)[1]);
    r
}

/// The little-endian `i16` at `p`.
pub fn i16_le_at(buf: &[u8], p: usize) -> (r: i16)
    requires
        p + 2 <= buf.len(),
    ensures
        r == seq_u16_le(buf@.skip(p as int)) as i16,
{
    let r = read_i16_le(vstd::slice::slice_subrange(buf, p, p + 2));
    assert(buf@.subrange(p as int, p + 2)[0] == buf@.skip(p as int)[0]);
    assert(buf@.subrange(p as int, p + 2)[1] == buf@.skip(p as int)[1]);
    r
}

/// The little-endian `u32` at `p`.
pub fn u32_le_at(buf: &[u8], p: usize) -> (r: u32)
    requires
        p + 4 <= buf.len(),
    ensures
        r == seq_u32_le(buf@.skip(p as int)),
{
    let r = read_u32_le(vstd::slice::slice_subrange(buf, p, p + 4));
    assert(forall|k: int| 0 <= k < 4 ==> buf@.subrange(p as int, p + 4)[k] == buf@.skip(p as int)[k]);
    r
}

/// The little-endian `i32` at `p`.
pub fn i32_le_at(buf: &[u8], p: usize) -> (r: i32)
    requires
        p + 4 <= buf.len(),
    ensures
        r == seq_u32_le(buf@.skip(p as int)) as i32,
{
    let r = read_i32_le(vstd::slice::slice_subrange(buf, p, p + 4));
    assert(forall|k: int| 0 <= k < 4 ==> buf@.subrange(p as int, p + 4)[k] == buf@.skip(p as int)[k]);
    r
}

} // verus!
