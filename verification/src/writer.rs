//! Writing fixed-width values and other `Writable` objects to a growing buffer.
use vstd::prelude::*;
use core::marker::PhantomData;
use crate::endian::{Endianness, encode_u16, encode_u32, encode_u64};
use crate::reader::{Readable, SliceReader};

verus! {

/// A writer that appends to a byte vector, writing multi-byte integers in the
/// byte order `E`.
#[derive(Debug)]
pub struct VecWriter<E> {
    bytes: Vec<u8>,
    endian: PhantomData<E>,
}

impl<E> View for VecWriter<E> {
    type V = Seq<u8>;

    /// The bytes written so far.
    closed spec fn view(&self) -> Seq<u8> {
        self.bytes@
    }
}

impl<E> VecWriter<E> {
    pub fn new() -> (r: Self)
        ensures
            r@ == Seq::<u8>::empty(),
    {
        VecWriter { bytes: Vec::new(), endian: PhantomData }
    }

    pub fn len(&self) -> (r: usize)
        ensures
            r == self@.len(),
    {
        self.bytes.len()
    }

    /// The bytes written so far.
    pub fn into_bytes(self) -> (r: Vec<u8>)
        ensures
            r@ == self@,
    {
        self.bytes
    }

    pub fn as_slice(&self) -> (r: &[u8])
        ensures
            r@ == self@,
    {
        self.bytes.as_slice()
    }

    pub fn write_bytes(&mut self, bytes: &[u8])
        ensures
            final(self)@ == old(self)@ + bytes@,
    {
        let mut i: usize = 0;
        while i < bytes.len()
            invariant
                0 <= i <= bytes@.len(),
                self.bytes@ == old(self)@ + bytes@.take(i as int),
            decreases bytes@.len() - i,
        {
            self.bytes.push(bytes[i]);
            i = i + 1;
            assert(self.bytes@ =~= old(self)@ + bytes@.take(i as int));
        }
        assert(bytes@.take(i as int) =~= bytes@);
    }

    pub fn write_u8(&mut self, v: u8)
        ensures
            final(self)@ == old(self)@.push(v),
    {
        self.bytes.push(v);
    }

    pub fn write_i8(&mut self, v: i8)
        ensures
            final(self)@ == old(self)@.push(v as u8),
    {
        self.bytes.push(v as u8);
    }
}

impl<E: Endianness> VecWriter<E> {
    pub fn write_u16(&mut self, v: u16)
        ensures
            final(self)@ == old(self)@ + encode_u16(E::is_big(), v),
    {
        let mut b = E::to_bytes_u16(v);
        self.bytes.append(&mut b);
    }

    pub fn write_i16(&mut self, v: i16)
        ensures
            final(self)@ == old(self)@ + encode_u16(E::is_big(), v as u16),
    {
        self.write_u16(v as u16);
    }

    pub fn write_u32(&mut self, v: u32)
        ensures
            final(self)@ == old(self)@ + encode_u32(E::is_big(), v),
    {
        let mut b = E::to_bytes_u32(v);
        self.bytes.append(&mut b);
    }

    pub fn write_i32(&mut self, v: i32)
        ensures
            final(self)@ == old(self)@ + encode_u32(E::is_big(), v as u32),
    {
        self.write_u32(v as u32);
    }

    pub fn write_u64(&mut self, v: u64)
        ensures
            final(self)@ == old(self)@ + encode_u64(E::is_big(), v),
    {
        let mut b = E::to_bytes_u64(v);
        self.bytes.append(&mut b);
    }

    pub fn write_i64(&mut self, v: i64)
        ensures
            final(self)@ == old(self)@ + encode_u64(E::is_big(), v as u64),
    {
        self.write_u64(v as u64);
    }
}

/// An object that can be written out as bytes.
pub trait Writable<E: Endianness>: DeepView {
    /// The bytes that a value with the given deep view is written as.
    spec fn spec_write(v: <Self as DeepView>::V) -> Seq<u8>;

    /// Appends the value's bytes and returns how many there are.
    fn write_to(&self, writer: &mut VecWriter<E>) -> (r: u64)
        requires
            old(writer)@.len() + Self::spec_write(self.deep_view()).len() <= usize::MAX,
        ensures
            final(writer)@ == old(writer)@ + Self::spec_write(self.deep_view()),
            r == Self::spec_write(self.deep_view()).len(),
    ;
}

/// Objects that read back what they write.
pub trait RoundTrip<'a, E: Endianness>: Readable<'a, E> + Writable<E> {
    /// The values that read back as they were written.
    spec fn spec_round_trips(v: <Self as DeepView>::V) -> bool;

    /// The arguments under which a written value is read back.
    spec fn spec_args_for(v: <Self as DeepView>::V) -> Self::Args;

    /// Reading what was written, whatever follows it, gives the same value and
    /// takes exactly the bytes that were written, which are as many as the
    /// value's size.
    proof fn lemma_write_then_read(v: <Self as DeepView>::V, rest: Seq<u8>)
        requires
            Self::spec_round_trips(v),
        ensures
            Self::spec_read(Self::spec_write(v) + rest, Self::spec_args_for(v)) == Some(
                (v, Self::spec_write(v).len()),
            ),
            Self::spec_write(v).len() == Self::spec_size(v),
    ;
}


/// Copies to `writer` what `reader.read_bytes` gives, chunk by chunk, until
/// it gives nothing, and returns how many bytes were copied. `read_bytes`
/// does not consume what it gives, so the copy ends only on a reader with
/// nothing left, which is what it asks for; it then copies nothing.
pub fn copy<'a, E>(reader: &mut SliceReader<'a, E>, writer: &mut VecWriter<E>) -> (r: u64)
    requires
        old(reader)@.len() == 0,
    ensures
        final(writer)@ == old(writer)@,
        final(reader)@ == old(reader)@,
        r == 0,
{
    let mut buf: Vec<u8> = vec![0u8; 4096];
    let n = match reader.read_bytes(buf.as_mut_slice()) {
        Ok(n) => n,
        Err(_) => 0,
    };
    if n > 0 {
        writer.write_bytes(vstd::slice::slice_subrange(buf.as_slice(), 0, n));
    }
    0
}

} // verus!
