//! `Readable` and `Writable` for the fixed-width integers, `Option`, and four
//! character codes.
use vstd::prelude::*;
use crate::endian::{
    Endianness, decode_u16, decode_u32, decode_u64, encode_u16, encode_u32, encode_u64,
    lemma_u16_roundtrip, lemma_u32_roundtrip, lemma_u64_roundtrip, lemma_decode_u16_prefix,
    lemma_decode_u32_prefix, lemma_decode_u64_prefix,
};
use crate::reader::{Readable, ReadError, SliceReader};
use crate::writer::{RoundTrip, VecWriter, Writable};

verus! {

impl<'a, E: Endianness> Readable<'a, E> for u8 {
    type Args = ();

    open spec fn spec_read(data: Seq<u8>, args: ()) -> Option<(u8, nat)> {
        if data.len() >= 1 {
            Some((data[0], 1nat))
        } else {
            None
        }
    }

    open spec fn spec_size(v: u8) -> nat {
        1
    }

    open spec fn spec_fixed_size() -> Option<nat> {
        Some(1nat)
    }

    proof fn lemma_read_size(data: Seq<u8>, args: ()) {
    }

    proof fn lemma_read_prefix(data: Seq<u8>, args: (), more: Seq<u8>) {
        if data.len() >= 1 {
            assert((data.take(1) + more)[0] == data[0]);
        }
    }

    proof fn lemma_fixed_size(v: u8) {
    }

    fn read_from(reader: &mut SliceReader<'a, E>, args: ()) -> (res: Result<u8, ReadError>) {
        reader.read_u8()
    }

    fn size(&self) -> (r: Result<usize, ReadError>) {
        Ok(1)
    }

    fn fixed_size() -> (r: Option<usize>) {
        Some(1)
    }
}

impl<E: Endianness> Writable<E> for u8 {
    open spec fn spec_write(v: u8) -> Seq<u8> {
        seq![v]
    }

    fn write_to(&self, writer: &mut VecWriter<E>) -> (r: u64) {
        writer.write_u8(*self);
        1
    }
}

impl<'a, E: Endianness> Readable<'a, E> for i8 {
    type Args = ();

    open spec fn spec_read(data: Seq<u8>, args: ()) -> Option<(i8, nat)> {
        if data.len() >= 1 {
            Some((data[0] as i8, 1nat))
        } else {
            None
        }
    }

    open spec fn spec_size(v: i8) -> nat {
        1
    }

    open spec fn spec_fixed_size() -> Option<nat> {
        Some(1nat)
    }

    proof fn lemma_read_size(data: Seq<u8>, args: ()) {
    }

    proof fn lemma_read_prefix(data: Seq<u8>, args: (), more: Seq<u8>) {
        if data.len() >= 1 {
            assert((data.take(1) + more)[0] == data[0]);
        }
    }

    proof fn lemma_fixed_size(v: i8) {
    }

    fn read_from(reader: &mut SliceReader<'a, E>, args: ()) -> (res: Result<i8, ReadError>) {
        reader.read_i8()
    }

    fn size(&self) -> (r: Result<usize, ReadError>) {
        Ok(1)
    }

    fn fixed_size() -> (r: Option<usize>) {
        Some(1)
    }
}

impl<E: Endianness> Writable<E> for i8 {
    open spec fn spec_write(v: i8) -> Seq<u8> {
        seq![v as u8]
    }

    fn write_to(&self, writer: &mut VecWriter<E>) -> (r: u64) {
        writer.write_i8(*self);
        1
    }
}

impl<'a, E: Endianness> Readable<'a, E> for u16 {
    type Args = ();

    open spec fn spec_read(data: Seq<u8>, args: ()) -> Option<(u16, nat)> {
        if data.len() >= 2 {
            Some((decode_u16(E::is_big(), data), 2nat))
        } else {
            None
        }
    }

    open spec fn spec_size(v: u16) -> nat {
        2
    }

    open spec fn spec_fixed_size() -> Option<nat> {
        Some(2nat)
    }

    proof fn lemma_read_size(data: Seq<u8>, args: ()) {
    }

    proof fn lemma_read_prefix(data: Seq<u8>, args: (), more: Seq<u8>) {
        if data.len() >= 2 {
            lemma_decode_u16_prefix(E::is_big(), data.take(2), more);
            lemma_decode_u16_prefix(E::is_big(), data.take(2), data.skip(2));
            assert(data.take(2) + data.skip(2) =~= data);
        }
    }

    proof fn lemma_fixed_size(v: u16) {
    }

    fn read_from(reader: &mut SliceReader<'a, E>, args: ()) -> (res: Result<u16, ReadError>) {
        reader.read_u16()
    }

    fn size(&self) -> (r: Result<usize, ReadError>) {
        Ok(2)
    }

    fn fixed_size() -> (r: Option<usize>) {
        Some(2)
    }
}

impl<E: Endianness> Writable<E> for u16 {
    open spec fn spec_write(v: u16) -> Seq<u8> {
        encode_u16(E::is_big(), v)
    }

    fn write_to(&self, writer: &mut VecWriter<E>) -> (r: u64) {
        writer.write_u16(*self);
        2
    }
}

impl<'a, E: Endianness> Readable<'a, E> for i16 {
    type Args = ();

    open spec fn spec_read(data: Seq<u8>, args: ()) -> Option<(i16, nat)> {
        if data.len() >= 2 {
            Some((decode_u16(E::is_big(), data) as i16, 2nat))
        } else {
            None
        }
    }

    open spec fn spec_size(v: i16) -> nat {
        2
    }

    open spec fn spec_fixed_size() -> Option<nat> {
        Some(2nat)
    }

    proof fn lemma_read_size(data: Seq<u8>, args: ()) {
    }

    proof fn lemma_read_prefix(data: Seq<u8>, args: (), more: Seq<u8>) {
        if data.len() >= 2 {
            lemma_decode_u16_prefix(E::is_big(), data.take(2), more);
            lemma_decode_u16_prefix(E::is_big(), data.take(2), data.skip(2));
            assert(data.take(2) + data.skip(2) =~= data);
        }
    }

    proof fn lemma_fixed_size(v: i16) {
    }

    fn read_from(reader: &mut SliceReader<'a, E>, args: ()) -> (res: Result<i16, ReadError>) {
        reader.read_i16()
    }

    fn size(&self) -> (r: Result<usize, ReadError>) {
        Ok(2)
    }

    fn fixed_size() -> (r: Option<usize>) {
        Some(2)
    }
}

impl<E: Endianness> Writable<E> for i16 {
    open spec fn spec_write(v: i16) -> Seq<u8> {
        encode_u16(E::is_big(), v as u16)
    }

    fn write_to(&self, writer: &mut VecWriter<E>) -> (r: u64) {
        writer.write_i16(*self);
        2
    }
}

impl<'a, E: Endianness> Readable<'a, E> for u32 {
    type Args = ();

    open spec fn spec_read(data: Seq<u8>, args: ()) -> Option<(u32, nat)> {
        if data.len() >= 4 {
            Some((decode_u32(E::is_big(), data), 4nat))
        } else {
            None
        }
    }

    open spec fn spec_size(v: u32) -> nat {
        4
    }

    open spec fn spec_fixed_size() -> Option<nat> {
        Some(4nat)
    }

    proof fn lemma_read_size(data: Seq<u8>, args: ()) {
    }

    proof fn lemma_read_prefix(data: Seq<u8>, args: (), more: Seq<u8>) {
        if data.len() >= 4 {
            lemma_decode_u32_prefix(E::is_big(), data.take(4), more);
            lemma_decode_u32_prefix(E::is_big(), data.take(4), data.skip(4));
            assert(data.take(4) + data.skip(4) =~= data);
        }
    }

    proof fn lemma_fixed_size(v: u32) {
    }

    fn read_from(reader: &mut SliceReader<'a, E>, args: ()) -> (res: Result<u32, ReadError>) {
        reader.read_u32()
    }

    fn size(&self) -> (r: Result<usize, ReadError>) {
        Ok(4)
    }

    fn fixed_size() -> (r: Option<usize>) {
        Some(4)
    }
}

impl<E: Endianness> Writable<E> for u32 {
    open spec fn spec_write(v: u32) -> Seq<u8> {
        encode_u32(E::is_big(), v)
    }

    fn write_to(&self, writer: &mut VecWriter<E>) -> (r: u64) {
        writer.write_u32(*self);
        4
    }
}

impl<'a, E: Endianness> Readable<'a, E> for i32 {
    type Args = ();

    open spec fn spec_read(data: Seq<u8>, args: ()) -> Option<(i32, nat)> {
        if data.len() >= 4 {
            Some((decode_u32(E::is_big(), data) as i32, 4nat))
        } else {
            None
        }
    }

    open spec fn spec_size(v: i32) -> nat {
        4
    }

    open spec fn spec_fixed_size() -> Option<nat> {
        Some(4nat)
    }

    proof fn lemma_read_size(data: Seq<u8>, args: ()) {
    }

    proof fn lemma_read_prefix(data: Seq<u8>, args: (), more: Seq<u8>) {
        if data.len() >= 4 {
            lemma_decode_u32_prefix(E::is_big(), data.take(4), more);
            lemma_decode_u32_prefix(E::is_big(), data.take(4), data.skip(4));
            assert(data.take(4) + data.skip(4) =~= data);
        }
    }

    proof fn lemma_fixed_size(v: i32) {
    }

    fn read_from(reader: &mut SliceReader<'a, E>, args: ()) -> (res: Result<i32, ReadError>) {
        reader.read_i32()
    }

    fn size(&self) -> (r: Result<usize, ReadError>) {
        Ok(4)
    }

    fn fixed_size() -> (r: Option<usize>) {
        Some(4)
    }
}

impl<E: Endianness> Writable<E> for i32 {
    open spec fn spec_write(v: i32) -> Seq<u8> {
        encode_u32(E::is_big(), v as u32)
    }

    fn write_to(&self, writer: &mut VecWriter<E>) -> (r: u64) {
        writer.write_i32(*self);
        4
    }
}

impl<'a, E: Endianness> Readable<'a, E> for u64 {
    type Args = ();

    open spec fn spec_read(data: Seq<u8>, args: ()) -> Option<(u64, nat)> {
        if data.len() >= 8 {
            Some((decode_u64(E::is_big(), data), 8nat))
        } else {
            None
        }
    }

    open spec fn spec_size(v: u64) -> nat {
        8
    }

    open spec fn spec_fixed_size() -> Option<nat> {
        Some(8nat)
    }

    proof fn lemma_read_size(data: Seq<u8>, args: ()) {
    }

    proof fn lemma_read_prefix(data: Seq<u8>, args: (), more: Seq<u8>) {
        if data.len() >= 8 {
            lemma_decode_u64_prefix(E::is_big(), data.take(8), more);
            lemma_decode_u64_prefix(E::is_big(), data.take(8), data.skip(8));
            assert(data.take(8) + data.skip(8) =~= data);
        }
    }

    proof fn lemma_fixed_size(v: u64) {
    }

    fn read_from(reader: &mut SliceReader<'a, E>, args: ()) -> (res: Result<u64, ReadError>) {
        reader.read_u64()
    }

    fn size(&self) -> (r: Result<usize, ReadError>) {
        Ok(8)
    }

    fn fixed_size() -> (r: Option<usize>) {
        Some(8)
    }
}

impl<E: Endianness> Writable<E> for u64 {
    open spec fn spec_write(v: u64) -> Seq<u8> {
        encode_u64(E::is_big(), v)
    }

    fn write_to(&self, writer: &mut VecWriter<E>) -> (r: u64) {
        writer.write_u64(*self);
        8
    }
}

impl<'a, E: Endianness> Readable<'a, E> for i64 {
    type Args = ();

    open spec fn spec_read(data: Seq<u8>, args: ()) -> Option<(i64, nat)> {
        if data.len() >= 8 {
            Some((decode_u64(E::is_big(), data) as i64, 8nat))
        } else {
            None
        }
    }

    open spec fn spec_size(v: i64) -> nat {
        8
    }

    open spec fn spec_fixed_size() -> Option<nat> {
        Some(8nat)
    }

    proof fn lemma_read_size(data: Seq<u8>, args: ()) {
    }

    proof fn lemma_read_prefix(data: Seq<u8>, args: (), more: Seq<u8>) {
        if data.len() >= 8 {
            lemma_decode_u64_prefix(E::is_big(), data.take(8), more);
            lemma_decode_u64_prefix(E::is_big(), data.take(8), data.skip(8));
            assert(data.take(8) + data.skip(8) =~= data);
        }
    }

    proof fn lemma_fixed_size(v: i64) {
    }

    fn read_from(reader: &mut SliceReader<'a, E>, args: ()) -> (res: Result<i64, ReadError>) {
        reader.read_i64()
    }

    fn size(&self) -> (r: Result<usize, ReadError>) {
        Ok(8)
    }

    fn fixed_size() -> (r: Option<usize>) {
        Some(8)
    }
}

impl<E: Endianness> Writable<E> for i64 {
    open spec fn spec_write(v: i64) -> Seq<u8> {
        encode_u64(E::is_big(), v as u64)
    }

    fn write_to(&self, writer: &mut VecWriter<E>) -> (r: u64) {
        writer.write_i64(*self);
        8
    }
}

impl<'a, E: Endianness> RoundTrip<'a, E> for u8 {
    open spec fn spec_round_trips(v: u8) -> bool {
        true
    }

    open spec fn spec_args_for(v: u8) -> () {
        ()
    }

    proof fn lemma_write_then_read(v: u8, rest: Seq<u8>) {
    }
}

impl<'a, E: Endianness> RoundTrip<'a, E> for i8 {
    open spec fn spec_round_trips(v: i8) -> bool {
        true
    }

    open spec fn spec_args_for(v: i8) -> () {
        ()
    }

    proof fn lemma_write_then_read(v: i8, rest: Seq<u8>) {
        assert((v as u8) as i8 == v) by (bit_vector);
    }
}

impl<'a, E: Endianness> RoundTrip<'a, E> for u16 {
    open spec fn spec_round_trips(v: u16) -> bool {
        true
    }

    open spec fn spec_args_for(v: u16) -> () {
        ()
    }

    proof fn lemma_write_then_read(v: u16, rest: Seq<u8>) {
        lemma_u16_roundtrip(E::is_big(), v);
        lemma_decode_u16_prefix(E::is_big(), encode_u16(E::is_big(), v), rest);
    }
}

impl<'a, E: Endianness> RoundTrip<'a, E> for i16 {
    open spec fn spec_round_trips(v: i16) -> bool {
        true
    }

    open spec fn spec_args_for(v: i16) -> () {
        ()
    }

    proof fn lemma_write_then_read(v: i16, rest: Seq<u8>) {
        lemma_u16_roundtrip(E::is_big(), v as u16);
        lemma_decode_u16_prefix(E::is_big(), encode_u16(E::is_big(), v as u16), rest);
        assert((v as u16) as i16 == v) by (bit_vector);
    }
}

impl<'a, E: Endianness> RoundTrip<'a, E> for u32 {
    open spec fn spec_round_trips(v: u32) -> bool {
        true
    }

    open spec fn spec_args_for(v: u32) -> () {
        ()
    }

    proof fn lemma_write_then_read(v: u32, rest: Seq<u8>) {
        lemma_u32_roundtrip(E::is_big(), v);
        lemma_decode_u32_prefix(E::is_big(), encode_u32(E::is_big(), v), rest);
    }
}

impl<'a, E: Endianness> RoundTrip<'a, E> for i32 {
    open spec fn spec_round_trips(v: i32) -> bool {
        true
    }

    open spec fn spec_args_for(v: i32) -> () {
        ()
    }

    proof fn lemma_write_then_read(v: i32, rest: Seq<u8>) {
        lemma_u32_roundtrip(E::is_big(), v as u32);
        lemma_decode_u32_prefix(E::is_big(), encode_u32(E::is_big(), v as u32), rest);
        assert((v as u32) as i32 == v) by (bit_vector);
    }
}

impl<'a, E: Endianness> RoundTrip<'a, E> for u64 {
    open spec fn spec_round_trips(v: u64) -> bool {
        true
    }

    open spec fn spec_args_for(v: u64) -> () {
        ()
    }

    proof fn lemma_write_then_read(v: u64, rest: Seq<u8>) {
        lemma_u64_roundtrip(E::is_big(), v);
        lemma_decode_u64_prefix(E::is_big(), encode_u64(E::is_big(), v), rest);
    }
}

impl<'a, E: Endianness> RoundTrip<'a, E> for i64 {
    open spec fn spec_round_trips(v: i64) -> bool {
        true
    }

    open spec fn spec_args_for(v: i64) -> () {
        ()
    }

    proof fn lemma_write_then_read(v: i64, rest: Seq<u8>) {
        lemma_u64_roundtrip(E::is_big(), v as u64);
        lemma_decode_u64_prefix(E::is_big(), encode_u64(E::is_big(), v as u64), rest);
        assert((v as u64) as i64 == v) by (bit_vector);
    }
}


/// A four character code: four bytes that name a kind of resource (`b"TXTR"`).
#[derive(Copy, Clone, PartialEq, Eq, Hash, PartialOrd, Ord, Debug)]
pub struct FourCC(pub [u8; 4]);

impl View for FourCC {
    type V = Seq<u8>;

    open spec fn view(&self) -> Seq<u8> {
        self.0@
    }
}

impl DeepView for FourCC {
    type V = Seq<u8>;

    open spec fn deep_view(&self) -> Seq<u8> {
        self.0@
    }
}

impl FourCC {
    /// The code whose bytes are those of `val`, most significant first.
    pub fn new(val: u32) -> (r: FourCC)
        ensures
            r@ == crate::endian::be_bytes_u32(val),
    {
        let r = FourCC([(val >> 24u32) as u8, (val >> 16u32) as u8, (val >> 8u32) as u8, val as u8]);
        assert(r@ =~= crate::endian::be_bytes_u32(val));
        r
    }

    pub fn from_bytes(bytes: &[u8; 4]) -> (r: FourCC)
        ensures
            r@ == bytes@,
    {
        FourCC(*bytes)
    }

    pub fn as_bytes(&self) -> (r: &[u8; 4])
        ensures
            r@ == self@,
    {
        &self.0
    }

    /// The code's bytes read as a big-endian number.
    pub fn to_u32(&self) -> (r: u32)
        ensures
            r == crate::endian::be_u32(self@),
    {
        ((self.0[0] as u32) << 24u32) | ((self.0[1] as u32) << 16u32) | ((self.0[2] as u32) << 8u32)
            | (self.0[3] as u32)
    }
}

/// `FourCC::new` and `FourCC::to_u32` undo each other.
pub proof fn lemma_fourcc_u32_roundtrip(val: u32, code: FourCC)
    ensures
        crate::endian::be_u32(crate::endian::be_bytes_u32(val)) == val,
        crate::endian::be_bytes_u32(crate::endian::be_u32(code@)) == code@,
{
    lemma_u32_roundtrip(true, val);
    let b = code@;
    assert(b.len() == 4);
    let (b0, b1, b2, b3) = (b[0], b[1], b[2], b[3]);
    let v = crate::endian::be_u32(b);
    assert(v == ((b0 as u32) << 24u32) | ((b1 as u32) << 16u32) | ((b2 as u32) << 8u32) | (b3 as u32));
    assert((v >> 24u32) as u8 == b0 && (v >> 16u32) as u8 == b1 && (v >> 8u32) as u8 == b2 && v as u8 == b3) by (bit_vector)
        requires
            v == ((b0 as u32) << 24u32) | ((b1 as u32) << 16u32) | ((b2 as u32) << 8u32) | (b3 as u32),
    ;
    assert(crate::endian::be_bytes_u32(v) =~= b);
}

impl<'a, E: Endianness> Readable<'a, E> for FourCC {
    type Args = ();

    open spec fn spec_read(data: Seq<u8>, args: ()) -> Option<(Seq<u8>, nat)> {
        if data.len() >= 4 {
            Some((data.take(4), 4nat))
        } else {
            None
        }
    }

    open spec fn spec_size(v: Seq<u8>) -> nat {
        4
    }

    open spec fn spec_fixed_size() -> Option<nat> {
        Some(4nat)
    }

    proof fn lemma_read_size(data: Seq<u8>, args: ()) {
    }

    proof fn lemma_read_prefix(data: Seq<u8>, args: (), more: Seq<u8>) {
        if data.len() >= 4 {
            assert((data.take(4) + more).take(4) =~= data.take(4));
        }
    }

    proof fn lemma_fixed_size(v: Seq<u8>) {
    }

    fn read_from(reader: &mut SliceReader<'a, E>, args: ()) -> (res: Result<FourCC, ReadError>) {
        if reader.len() < 4 {
            return Err(ReadError::UnexpectedEof);
        }
        let b0 = reader.read_u8()?;
        let b1 = reader.read_u8()?;
        let b2 = reader.read_u8()?;
        let b3 = reader.read_u8()?;
        let r = FourCC([b0, b1, b2, b3]);
        assert(r.deep_view() =~= old(reader)@.take(4));
        assert(reader@ =~= old(reader)@.skip(4));
        Ok(r)
    }

    fn size(&self) -> (r: Result<usize, ReadError>) {
        Ok(4)
    }

    fn fixed_size() -> (r: Option<usize>) {
        Some(4)
    }
}

impl<E: Endianness> Writable<E> for FourCC {
    open spec fn spec_write(v: Seq<u8>) -> Seq<u8> {
        v
    }

    fn write_to(&self, writer: &mut VecWriter<E>) -> (r: u64) {
        writer.write_bytes(self.0.as_slice());
        4
    }
}

impl<'a, E: Endianness> RoundTrip<'a, E> for FourCC {
    open spec fn spec_round_trips(v: Seq<u8>) -> bool {
        v.len() == 4
    }

    open spec fn spec_args_for(v: Seq<u8>) -> () {
        ()
    }

    proof fn lemma_write_then_read(v: Seq<u8>, rest: Seq<u8>) {
        assert((v + rest).take(4) =~= v);
    }
}

impl<'a, E: Endianness, T: Readable<'a, E>> Readable<'a, E> for Option<T> {
    type Args = Option<T::Args>;

    open spec fn spec_read(data: Seq<u8>, args: Option<T::Args>) -> Option<
        (Option<<T as DeepView>::V>, nat),
    > {
        match args {
            Some(a) => match T::spec_read(data, a) {
                Some((v, n)) => Some((Some(v), n)),
                None => None,
            },
            None => Some((None, 0nat)),
        }
    }

    open spec fn spec_size(v: Option<<T as DeepView>::V>) -> nat {
        match v {
            Some(x) => T::spec_size(x),
            None => 0,
        }
    }

    open spec fn spec_fixed_size() -> Option<nat> {
        None
    }

    proof fn lemma_read_size(data: Seq<u8>, args: Option<T::Args>) {
        if let Some(a) = args {
            T::lemma_read_size(data, a);
        }
    }

    proof fn lemma_read_prefix(data: Seq<u8>, args: Option<T::Args>, more: Seq<u8>) {
        if let Some(a) = args {
            T::lemma_read_prefix(data, a, more);
        }
    }

    proof fn lemma_fixed_size(v: Option<<T as DeepView>::V>) {
    }

    fn read_from(reader: &mut SliceReader<'a, E>, args: Option<T::Args>) -> (res: Result<
        Option<T>,
        ReadError,
    >) {
        match args {
            Some(a) => {
                let v = T::read_from(reader, a)?;
                Ok(Some(v))
            },
            None => {
                assert(reader@ =~= old(reader)@.skip(0));
                Ok(None)
            },
        }
    }

    fn size(&self) -> (r: Result<usize, ReadError>) {
        match self {
            Some(v) => v.size(),
            None => Ok(0),
        }
    }

    fn fixed_size() -> (r: Option<usize>) {
        None
    }
}

impl<E: Endianness, T: Writable<E>> Writable<E> for Option<T> {
    open spec fn spec_write(v: Option<<T as DeepView>::V>) -> Seq<u8> {
        match v {
            Some(x) => T::spec_write(x),
            None => Seq::empty(),
        }
    }

    fn write_to(&self, writer: &mut VecWriter<E>) -> (r: u64) {
        match self {
            Some(v) => v.write_to(writer),
            None => {
                assert(writer@ =~= old(writer)@ + Seq::<u8>::empty());
                0
            },
        }
    }
}

impl<'a, E: Endianness, T: RoundTrip<'a, E>> RoundTrip<'a, E> for Option<T> {
    open spec fn spec_round_trips(v: Option<<T as DeepView>::V>) -> bool {
        match v {
            Some(x) => T::spec_round_trips(x),
            None => true,
        }
    }

    open spec fn spec_args_for(v: Option<<T as DeepView>::V>) -> Option<T::Args> {
        match v {
            Some(x) => Some(T::spec_args_for(x)),
            None => None,
        }
    }

    proof fn lemma_write_then_read(v: Option<<T as DeepView>::V>, rest: Seq<u8>) {
        if let Some(x) = v {
            T::lemma_write_then_read(x, rest);
        }
    }
}


/// A string of bytes that ends at its first NUL. It holds the bytes before
/// that NUL; the NUL is written after them.
#[derive(Clone, Debug, PartialEq, Eq)]
pub struct CStr {
    bytes: Vec<u8>,
}

impl View for CStr {
    type V = Seq<u8>;

    closed spec fn view(&self) -> Seq<u8> {
        self.bytes@
    }
}

impl DeepView for CStr {
    type V = Seq<u8>;

    closed spec fn deep_view(&self) -> Seq<u8> {
        self.bytes@
    }
}

/// Whether the first NUL of `data` is at `i`.
pub open spec fn spec_first_nul(data: Seq<u8>, i: int) -> bool {
    &&& 0 <= i < data.len()
    &&& data[i] == 0
    &&& forall|j: int| 0 <= j < i ==> data[j] != 0
}

/// There is one first NUL.
proof fn lemma_first_nul_unique(data: Seq<u8>, i: int, k: int)
    requires
        spec_first_nul(data, i),
        spec_first_nul(data, k),
    ensures
        i == k,
{
}

impl CStr {
    /// The bytes before the NUL.
    pub fn to_bytes(&self) -> (r: &[u8])
        ensures
            r@ == self@,
    {
        self.bytes.as_slice()
    }

    /// The bytes, NUL included.
    pub fn to_bytes_with_nul(&self) -> (r: Vec<u8>)
        ensures
            r@ == self@.push(0),
    {
        let mut r = self.bytes.clone();
        r.push(0);
        r
    }
}

/// Seeing a slice of bytes as a C string.
pub trait CStrConversionExtension {
    /// The bytes that `as_cstr` looks at.
    spec fn spec_cstr_bytes(&self) -> Seq<u8>;

    /// The string whose NUL is the last byte, and the only one.
    fn as_cstr(&self) -> (r: CStr)
        requires
            spec_first_nul(self.spec_cstr_bytes(), self.spec_cstr_bytes().len() - 1),
        ensures
            r@ == self.spec_cstr_bytes().drop_last(),
    ;
}

impl CStrConversionExtension for [u8] {
    open spec fn spec_cstr_bytes(&self) -> Seq<u8> {
        self@
    }

    fn as_cstr(&self) -> (r: CStr) {
        let n = self.len() - 1;
        let mut bytes: Vec<u8> = Vec::new();
        let mut i: usize = 0;
        while i < n
            invariant
                n == self@.len() - 1,
                0 <= i <= n,
                bytes@ == self@.take(i as int),
            decreases n - i,
        {
            bytes.push(self[i]);
            i = i + 1;
            assert(bytes@ =~= self@.take(i as int));
        }
        assert(self@.take(n as int) =~= self@.drop_last());
        CStr { bytes }
    }
}

impl<'a, E: Endianness> Readable<'a, E> for CStr {
    type Args = ();

    open spec fn spec_read(data: Seq<u8>, args: ()) -> Option<(Seq<u8>, nat)> {
        if exists|i: int| spec_first_nul(data, i) {
            let i = choose|i: int| spec_first_nul(data, i);
            Some((data.take(i), (i + 1) as nat))
        } else {
            None
        }
    }

    open spec fn spec_size(v: Seq<u8>) -> nat {
        v.len() + 1
    }

    open spec fn spec_fixed_size() -> Option<nat> {
        None
    }

    proof fn lemma_read_size(data: Seq<u8>, args: ()) {
    }

    proof fn lemma_read_prefix(data: Seq<u8>, args: (), more: Seq<u8>) {
        if exists|i: int| spec_first_nul(data, i) {
            let i = choose|i: int| spec_first_nul(data, i);
            let d = data.take(i + 1) + more;
            assert(forall|j: int| 0 <= j <= i ==> d[j] == data[j]);
            assert(spec_first_nul(d, i));
            let k = choose|k: int| spec_first_nul(d, k);
            lemma_first_nul_unique(d, i, k);
            assert(d.take(i) =~= data.take(i));
        }
    }

    proof fn lemma_fixed_size(v: Seq<u8>) {
    }

    fn read_from(reader: &mut SliceReader<'a, E>, args: ()) -> (res: Result<CStr, ReadError>) {
        let ghost start = reader@;
        let mut bytes: Vec<u8> = Vec::new();
        loop
            invariant
                start == old(reader)@,
                bytes@.len() <= start.len(),
                bytes@ == start.take(bytes@.len() as int),
                reader@ == start.skip(bytes@.len() as int),
                forall|j: int| 0 <= j < bytes@.len() ==> start[j] != 0,
            decreases start.len() - bytes@.len(),
        {
            let ghost k = bytes@.len() as int;
            let b = match reader.read_u8() {
                Ok(b) => b,
                Err(e) => {
                    assert(k == start.len());
                    assert(!exists|i: int| spec_first_nul(start, i));
                    return Err(e);
                },
            };
            assert(b == start[k]);
            if b == 0 {
                proof {
                    assert(spec_first_nul(start, k));
                    let c = choose|c: int| spec_first_nul(start, c);
                    lemma_first_nul_unique(start, k, c);
                    assert(reader@ =~= start.skip(k + 1));
                }
                return Ok(CStr { bytes });
            }
            bytes.push(b);
            assert(bytes@ =~= start.take(k + 1));
            assert(reader@ =~= start.skip(k + 1));
        }
    }

    fn size(&self) -> (r: Result<usize, ReadError>) {
        if self.bytes.len() < usize::MAX {
            Ok(self.bytes.len() + 1)
        } else {
            Err(ReadError::SizeOverflow)
        }
    }

    fn fixed_size() -> (r: Option<usize>) {
        None
    }
}

impl<E: Endianness> Writable<E> for CStr {
    open spec fn spec_write(v: Seq<u8>) -> Seq<u8> {
        v.push(0)
    }

    fn write_to(&self, writer: &mut VecWriter<E>) -> (r: u64) {
        writer.write_bytes(self.bytes.as_slice());
        writer.write_u8(0);
        assert(writer@ =~= old(writer)@ + self@.push(0));
        self.bytes.len() as u64 + 1
    }
}

impl<'a, E: Endianness> RoundTrip<'a, E> for CStr {
    open spec fn spec_round_trips(v: Seq<u8>) -> bool {
        forall|j: int| 0 <= j < v.len() ==> v[j] != 0
    }

    open spec fn spec_args_for(v: Seq<u8>) -> () {
        ()
    }

    proof fn lemma_write_then_read(v: Seq<u8>, rest: Seq<u8>) {
        let d = v.push(0) + rest;
        assert(forall|j: int| 0 <= j < v.len() ==> d[j] == v[j]);
        assert(spec_first_nul(d, v.len() as int));
        let k = choose|k: int| spec_first_nul(d, k);
        lemma_first_nul_unique(d, v.len() as int, k);
        assert(d.take(v.len() as int) =~= v);
    }
}

} // verus!
