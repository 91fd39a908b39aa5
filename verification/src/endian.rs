//! Byte orders for reading and writing fixed-width integers.
//!
//! The two byte orders are the marker types of the `byteorder` crate; the
//! conversions go through `byteorder::ByteOrder`.
use vstd::prelude::*;
use byteorder::ByteOrder;

verus! {

#[verifier::external_type_specification]
#[verifier::external_body]
pub struct ExBigEndian(byteorder::BigEndian);

#[verifier::external_type_specification]
#[verifier::external_body]
pub struct ExLittleEndian(byteorder::LittleEndian);

/// The big-endian value of the first two bytes of `b`.
pub open spec fn be_u16(b: Seq<u8>) -> u16 {
    ((b[0] as u16) << 8u16) | (b[1] as u16)
}

/// The big-endian value of the first four bytes of `b`.
pub open spec fn be_u32(b: Seq<u8>) -> u32 {
    ((b[0] as u32) << 24u32) | ((b[1] as u32) << 16u32) | ((b[2] as u32) << 8u32) | (b[3] as u32)
}

/// The big-endian value of the first eight bytes of `b`.
pub open spec fn be_u64(b: Seq<u8>) -> u64 {
    ((b[0] as u64) << 56u64) | ((b[1] as u64) << 48u64) | ((b[2] as u64) << 40u64) | ((b[3] as u64)
        << 32u64) | ((b[4] as u64) << 24u64) | ((b[5] as u64) << 16u64) | ((b[6] as u64) << 8u64)
        | (b[7] as u64)
}

/// The little-endian value of the first two bytes of `b`.
pub open spec fn le_u16(b: Seq<u8>) -> u16 {
    ((b[1] as u16) << 8u16) | (b[0] as u16)
}

/// The little-endian value of the first four bytes of `b`.
pub open spec fn le_u32(b: Seq<u8>) -> u32 {
    ((b[3] as u32) << 24u32) | ((b[2] as u32) << 16u32) | ((b[1] as u32) << 8u32) | (b[0] as u32)
}

/// The little-endian value of the first eight bytes of `b`.
pub open spec fn le_u64(b: Seq<u8>) -> u64 {
    ((b[7] as u64) << 56u64) | ((b[6] as u64) << 48u64) | ((b[5] as u64) << 40u64) | ((b[4] as u64)
        << 32u64) | ((b[3] as u64) << 24u64) | ((b[2] as u64) << 16u64) | ((b[1] as u64) << 8u64)
        | (b[0] as u64)
}

/// The two bytes of `n`, most significant first.
pub open spec fn be_bytes_u16(n: u16) -> Seq<u8> {
    seq![(n >> 8u16) as u8, n as u8]
}

/// The four bytes of `n`, most significant first.
pub open spec fn be_bytes_u32(n: u32) -> Seq<u8> {
    seq![(n >> 24u32) as u8, (n >> 16u32) as u8, (n >> 8u32) as u8, n as u8]
}

/// The eight bytes of `n`, most significant first.
pub open spec fn be_bytes_u64(n: u64) -> Seq<u8> {
    seq![
        (n >> 56u64) as u8,
        (n >> 48u64) as u8,
        (n >> 40u64) as u8,
        (n >> 32u64) as u8,
        (n >> 24u64) as u8,
        (n >> 16u64) as u8,
        (n >> 8u64) as u8,
        n as u8,
    ]
}

/// The two bytes of `n`, least significant first.
pub open spec fn le_bytes_u16(n: u16) -> Seq<u8> {
    be_bytes_u16(n).reverse()
}

/// The four bytes of `n`, least significant first.
pub open spec fn le_bytes_u32(n: u32) -> Seq<u8> {
    be_bytes_u32(n).reverse()
}

/// The eight bytes of `n`, least significant first.
pub open spec fn le_bytes_u64(n: u64) -> Seq<u8> {
    be_bytes_u64(n).reverse()
}

/// The value of the first two bytes of `b` in the given byte order.
pub open spec fn decode_u16(big: bool, b: Seq<u8>) -> u16 {
    if big {
        be_u16(b)
    } else {
        le_u16(b)
    }
}

/// The value of the first four bytes of `b` in the given byte order.
pub open spec fn decode_u32(big: bool, b: Seq<u8>) -> u32 {
    if big {
        be_u32(b)
    } else {
        le_u32(b)
    }
}

/// The value of the first eight bytes of `b` in the given byte order.
pub open spec fn decode_u64(big: bool, b: Seq<u8>) -> u64 {
    if big {
        be_u64(b)
    } else {
        le_u64(b)
    }
}

/// The bytes of `n` in the given byte order.
pub open spec fn encode_u16(big: bool, n: u16) -> Seq<u8> {
    if big {
        be_bytes_u16(n)
    } else {
        le_bytes_u16(n)
    }
}

/// The bytes of `n` in the given byte order.
pub open spec fn encode_u32(big: bool, n: u32) -> Seq<u8> {
    if big {
        be_bytes_u32(n)
    } else {
        le_bytes_u32(n)
    }
}

/// The bytes of `n` in the given byte order.
pub open spec fn encode_u64(big: bool, n: u64) -> Seq<u8> {
    if big {
        be_bytes_u64(n)
    } else {
        le_bytes_u64(n)
    }
}

/// A byte order: how multi-byte integers are laid out in a byte stream.
pub trait Endianness {
    /// Whether the most significant byte comes first.
    spec fn is_big() -> bool;

    fn from_bytes_u16(buf: &[u8]) -> (r: u16)
        requires
            buf@.len() >= 2,
        ensures
            r == decode_u16(Self::is_big(), buf@),
    ;

    fn from_bytes_u32(buf: &[u8]) -> (r: u32)
        requires
            buf@.len() >= 4,
        ensures
            r == decode_u32(Self::is_big(), buf@),
    ;

    fn from_bytes_u64(buf: &[u8]) -> (r: u64)
        requires
            buf@.len() >= 8,
        ensures
            r == decode_u64(Self::is_big(), buf@),
    ;

    fn to_bytes_u16(n: u16) -> (r: Vec<u8>)
        ensures
            r@ == encode_u16(Self::is_big(), n),
    ;

    fn to_bytes_u32(n: u32) -> (r: Vec<u8>)
        ensures
            r@ == encode_u32(Self::is_big(), n),
    ;

    fn to_bytes_u64(n: u64) -> (r: Vec<u8>)
        ensures
            r@ == encode_u64(Self::is_big(), n),
    ;
}

/// `byteorder::BigEndian::read_u16`: the big-endian value of the first two bytes
/// (the crate panics on a shorter slice, which `requires` rules out).
#[verifier::external_body]
fn big_endian_read_u16(buf: &[u8]) -> (r: u16)
    requires
        buf@.len() >= 2,
    ensures
        r == be_u16(buf@),
{
    byteorder::BigEndian::read_u16(buf)
}

/// `byteorder::BigEndian::read_u32`: the big-endian value of the first four bytes.
#[verifier::external_body]
fn big_endian_read_u32(buf: &[u8]) -> (r: u32)
    requires
        buf@.len() >= 4,
    ensures
        r == be_u32(buf@),
{
    byteorder::BigEndian::read_u32(buf)
}

/// `byteorder::BigEndian::read_u64`: the big-endian value of the first eight bytes.
#[verifier::external_body]
fn big_endian_read_u64(buf: &[u8]) -> (r: u64)
    requires
        buf@.len() >= 8,
    ensures
        r == be_u64(buf@),
{
    byteorder::BigEndian::read_u64(buf)
}

/// `byteorder::LittleEndian::read_u16`: the little-endian value of the first two bytes.
#[verifier::external_body]
fn little_endian_read_u16(buf: &[u8]) -> (r: u16)
    requires
        buf@.len() >= 2,
    ensures
        r == le_u16(buf@),
{
    byteorder::LittleEndian::read_u16(buf)
}

/// `byteorder::LittleEndian::read_u32`: the little-endian value of the first four bytes.
#[verifier::external_body]
fn little_endian_read_u32(buf: &[u8]) -> (r: u32)
    requires
        buf@.len() >= 4,
    ensures
        r == le_u32(buf@),
{
    byteorder::LittleEndian::read_u32(buf)
}

/// `byteorder::LittleEndian::read_u64`: the little-endian value of the first eight bytes.
#[verifier::external_body]
fn little_endian_read_u64(buf: &[u8]) -> (r: u64)
    requires
        buf@.len() >= 8,
    ensures
        r == le_u64(buf@),
{
    byteorder::LittleEndian::read_u64(buf)
}

/// `byteorder::BigEndian::write_u16` into a fresh two-byte buffer: the bytes of
/// `n`, most significant first.
#[verifier::external_body]
fn big_endian_write_u16(n: u16) -> (r: Vec<u8>)
    ensures
        r@ == be_bytes_u16(n),
{
    let mut buf = vec![0u8; 2];
    byteorder::BigEndian::write_u16(&mut buf, n);
    buf
}

/// `byteorder::BigEndian::write_u32` into a fresh four-byte buffer.
#[verifier::external_body]
fn big_endian_write_u32(n: u32) -> (r: Vec<u8>)
    ensures
        r@ == be_bytes_u32(n),
{
    let mut buf = vec![0u8; 4];
    byteorder::BigEndian::write_u32(&mut buf, n);
    buf
}

/// `byteorder::BigEndian::write_u64` into a fresh eight-byte buffer.
#[verifier::external_body]
fn big_endian_write_u64(n: u64) -> (r: Vec<u8>)
    ensures
        r@ == be_bytes_u64(n),
{
    let mut buf = vec![0u8; 8];
    byteorder::BigEndian::write_u64(&mut buf, n);
    buf
}

/// `byteorder::LittleEndian::write_u16` into a fresh two-byte buffer: the bytes
/// of `n`, least significant first.
#[verifier::external_body]
fn little_endian_write_u16(n: u16) -> (r: Vec<u8>)
    ensures
        r@ == le_bytes_u16(n),
{
    let mut buf = vec![0u8; 2];
    byteorder::LittleEndian::write_u16(&mut buf, n);
    buf
}

/// `byteorder::LittleEndian::write_u32` into a fresh four-byte buffer.
#[verifier::external_body]
fn little_endian_write_u32(n: u32) -> (r: Vec<u8>)
    ensures
        r@ == le_bytes_u32(n),
{
    let mut buf = vec![0u8; 4];
    byteorder::LittleEndian::write_u32(&mut buf, n);
    buf
}

/// `byteorder::LittleEndian::write_u64` into a fresh eight-byte buffer.
#[verifier::external_body]
fn little_endian_write_u64(n: u64) -> (r: Vec<u8>)
    ensures
        r@ == le_bytes_u64(n),
{
    let mut buf = vec![0u8; 8];
    byteorder::LittleEndian::write_u64(&mut buf, n);
    buf
}

impl Endianness for byteorder::BigEndian {
    open spec fn is_big() -> bool {
        true
    }

    fn from_bytes_u16(buf: &[u8]) -> (r: u16) {
        big_endian_read_u16(buf)
    }

    fn from_bytes_u32(buf: &[u8]) -> (r: u32) {
        big_endian_read_u32(buf)
    }

    fn from_bytes_u64(buf: &[u8]) -> (r: u64) {
        big_endian_read_u64(buf)
    }

    fn to_bytes_u16(n: u16) -> (r: Vec<u8>) {
        big_endian_write_u16(n)
    }

    fn to_bytes_u32(n: u32) -> (r: Vec<u8>) {
        big_endian_write_u32(n)
    }

    fn to_bytes_u64(n: u64) -> (r: Vec<u8>) {
        big_endian_write_u64(n)
    }
}

impl Endianness for byteorder::LittleEndian {
    open spec fn is_big() -> bool {
        false
    }

    fn from_bytes_u16(buf: &[u8]) -> (r: u16) {
        little_endian_read_u16(buf)
    }

    fn from_bytes_u32(buf: &[u8]) -> (r: u32) {
        little_endian_read_u32(buf)
    }

    fn from_bytes_u64(buf: &[u8]) -> (r: u64) {
        little_endian_read_u64(buf)
    }

    fn to_bytes_u16(n: u16) -> (r: Vec<u8>) {
        little_endian_write_u16(n)
    }

    fn to_bytes_u32(n: u32) -> (r: Vec<u8>) {
        little_endian_write_u32(n)
    }

    fn to_bytes_u64(n: u64) -> (r: Vec<u8>) {
        little_endian_write_u64(n)
    }
}

/// Decoding the two bytes that encode `n` gives `n` back, in either byte order.
pub proof fn lemma_u16_roundtrip(big: bool, n: u16)
    ensures
        encode_u16(big, n).len() == 2,
        decode_u16(big, encode_u16(big, n)) == n,
{
    let b = encode_u16(big, n);
    if big {
        assert(((((n >> 8u16) as u8) as u16) << 8u16) | ((n as u8) as u16) == n) by (bit_vector);
    } else {
        assert(b[0] == n as u8 && b[1] == (n >> 8u16) as u8);
        assert(((((n >> 8u16) as u8) as u16) << 8u16) | ((n as u8) as u16) == n) by (bit_vector);
    }
}

/// Decoding the four bytes that encode `n` gives `n` back, in either byte order.
pub proof fn lemma_u32_roundtrip(big: bool, n: u32)
    ensures
        encode_u32(big, n).len() == 4,
        decode_u32(big, encode_u32(big, n)) == n,
{
    let b = encode_u32(big, n);
    if !big {
        assert(b[0] == n as u8 && b[1] == (n >> 8u32) as u8 && b[2] == (n >> 16u32) as u8 && b[3]
            == (n >> 24u32) as u8);
    }
    assert(((((n >> 24u32) as u8) as u32) << 24u32) | ((((n >> 16u32) as u8) as u32) << 16u32) | ((
    ((n >> 8u32) as u8) as u32) << 8u32) | ((n as u8) as u32) == n) by (bit_vector);
}

/// Decoding the eight bytes that encode `n` gives `n` back, in either byte order.
pub proof fn lemma_u64_roundtrip(big: bool, n: u64)
    ensures
        encode_u64(big, n).len() == 8,
        decode_u64(big, encode_u64(big, n)) == n,
{
    let b = encode_u64(big, n);
    if !big {
        assert(b[0] == n as u8 && b[1] == (n >> 8u64) as u8 && b[2] == (n >> 16u64) as u8 && b[3]
            == (n >> 24u64) as u8 && b[4] == (n >> 32u64) as u8 && b[5] == (n >> 40u64) as u8 && b[6]
            == (n >> 48u64) as u8 && b[7] == (n >> 56u64) as u8);
    }
    assert(((((n >> 56u64) as u8) as u64) << 56u64) | ((((n >> 48u64) as u8) as u64) << 48u64) | ((
    ((n >> 40u64) as u8) as u64) << 40u64) | ((((n >> 32u64) as u8) as u64) << 32u64) | ((((n
        >> 24u64) as u8) as u64) << 24u64) | ((((n >> 16u64) as u8) as u64) << 16u64) | ((((n
        >> 8u64) as u8) as u64) << 8u64) | ((n as u8) as u64) == n) by (bit_vector);
}

/// Only the first two bytes matter to `decode_u16`.
pub proof fn lemma_decode_u16_prefix(big: bool, a: Seq<u8>, b: Seq<u8>)
    requires
        a.len() >= 2,
    ensures
        decode_u16(big, a + b) == decode_u16(big, a),
{
    assert((a + b)[0] == a[0] && (a + b)[1] == a[1]);
}

/// Only the first four bytes matter to `decode_u32`.
pub proof fn lemma_decode_u32_prefix(big: bool, a: Seq<u8>, b: Seq<u8>)
    requires
        a.len() >= 4,
    ensures
        decode_u32(big, a + b) == decode_u32(big, a),
{
    assert((a + b)[0] == a[0] && (a + b)[1] == a[1] && (a + b)[2] == a[2] && (a + b)[3] == a[3]);
}

/// Only the first eight bytes matter to `decode_u64`.
pub proof fn lemma_decode_u64_prefix(big: bool, a: Seq<u8>, b: Seq<u8>)
    requires
        a.len() >= 8,
    ensures
        decode_u64(big, a + b) == decode_u64(big, a),
{
    assert((a + b)[0] == a[0] && (a + b)[1] == a[1] && (a + b)[2] == a[2] && (a + b)[3] == a[3]);
    assert((a + b)[4] == a[4] && (a + b)[5] == a[5] && (a + b)[6] == a[6] && (a + b)[7] == a[7]);
}

} // verus!
