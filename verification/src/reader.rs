//! Reading fixed-width values and other `Readable` objects from a byte slice.
use vstd::prelude::*;
use core::marker::PhantomData;
use crate::endian::{Endianness, decode_u16, decode_u32, decode_u64};

verus! {

/// Why a read failed.
#[derive(Copy, Clone, Debug, PartialEq, Eq, Structural)]
pub enum ReadError {
    /// Fewer bytes were left than the value needs.
    UnexpectedEof,
    /// A boolean byte was neither 0 nor 1.
    InvalidBool,
    /// `truncate_to` asked for more bytes than are left.
    TooShortToTruncate,
    /// `advance` asked to skip more bytes than are left.
    TooShortToAdvance,
    /// A size does not fit in a `usize`.
    SizeOverflow,
}

/// A reader over a borrowed slice of bytes, reading multi-byte integers in the
/// byte order `E`.
#[derive(Debug)]
pub struct SliceReader<'a, E> {
    data: &'a [u8],
    endian: PhantomData<E>,
}

impl<'a, E> View for SliceReader<'a, E> {
    type V = Seq<u8>;

    /// The bytes that are left to read.
    closed spec fn view(&self) -> Seq<u8> {
        self.data@
    }
}

impl<'a, E> DeepView for SliceReader<'a, E> {
    type V = Seq<u8>;

    open spec fn deep_view(&self) -> Seq<u8> {
        self@
    }
}

impl<'a, E> Clone for SliceReader<'a, E> {
    fn clone(&self) -> (r: Self)
        ensures
            r@ == self@,
    {
        SliceReader { data: self.data, endian: PhantomData }
    }
}

impl<'a, E> SliceReader<'a, E> {
    pub fn new(slice: &'a [u8]) -> (r: Self)
        ensures
            r@ == slice@,
    {
        SliceReader { data: slice, endian: PhantomData }
    }

    /// The bytes that are left, as a slice.
    pub fn as_slice(&self) -> (r: &'a [u8])
        ensures
            r@ == self@,
    {
        self.data
    }

    pub fn len(&self) -> (r: usize)
        ensures
            r == self@.len(),
    {
        self.data.len()
    }

    /// Copies as many of the bytes that are left as fit to the front of
    /// `bytes`, without consuming them, and returns how many it copied.
    pub fn read_bytes(&mut self, bytes: &mut [u8]) -> (r: Result<usize, ReadError>)
        ensures
            final(self)@ == old(self)@,
            r is Ok,
            r matches Ok(n) ==> {
                &&& n as int == if old(self)@.len() < old(bytes)@.len() {
                    old(self)@.len() as int
                } else {
                    old(bytes)@.len() as int
                }
                &&& final(bytes)@ == old(self)@.take(n as int) + old(bytes)@.skip(n as int)
            },
    {
        let n = if self.data.len() < bytes.len() {
            self.data.len()
        } else {
            bytes.len()
        };
        let mut i: usize = 0;
        while i < n
            invariant
                n <= self.data@.len(),
                n <= bytes@.len(),
                bytes@.len() == old(bytes)@.len(),
                0 <= i <= n,
                forall|j: int| 0 <= j < i ==> bytes@[j] == self.data@[j],
                forall|j: int| i <= j < bytes@.len() ==> bytes@[j] == old(bytes)@[j],
            decreases n - i,
        {
            bytes[i] = self.data[i];
            i = i + 1;
        }
        assert(bytes@ =~= self.data@.take(n as int) + old(bytes)@.skip(n as int));
        Ok(n)
    }

    /// Drops everything after the first `len` bytes.
    pub fn truncate_to(&mut self, len: usize) -> (r: Result<(), ReadError>)
        ensures
            len <= old(self)@.len() ==> r is Ok && final(self)@ == old(self)@.take(len as int),
            len > old(self)@.len() ==> r == Err::<(), ReadError>(ReadError::TooShortToTruncate)
                && final(self)@ == old(self)@,
    {
        if len <= self.data.len() {
            self.data = vstd::slice::slice_subrange(self.data, 0, len);
            Ok(())
        } else {
            Err(ReadError::TooShortToTruncate)
        }
    }

    /// Skips the next `b` bytes.
    pub fn advance(&mut self, b: usize) -> (r: Result<(), ReadError>)
        ensures
            b <= old(self)@.len() ==> r is Ok && final(self)@ == old(self)@.skip(b as int),
            b > old(self)@.len() ==> r == Err::<(), ReadError>(ReadError::TooShortToAdvance)
                && final(self)@ == old(self)@,
    {
        if b <= self.data.len() {
            self.data = vstd::slice::slice_subrange(self.data, b, self.data.len());
            Ok(())
        } else {
            Err(ReadError::TooShortToAdvance)
        }
    }

    /// Like `clone` and then `advance`.
    pub fn advance_clone(&self, b: usize) -> (r: Result<Self, ReadError>)
        ensures
            b <= self@.len() ==> (r matches Ok(s) && s@ == self@.skip(b as int)),
            b > self@.len() ==> r == Err::<Self, ReadError>(ReadError::TooShortToAdvance),
    {
        let mut ret = self.clone();
        match ret.advance(b) {
            Ok(()) => Ok(ret),
            Err(e) => Err(e),
        }
    }

    /// Like `clone` and then `truncate_to`.
    pub fn truncate_clone_to(&self, len: usize) -> (r: Result<Self, ReadError>)
        ensures
            len <= self@.len() ==> (r matches Ok(s) && s@ == self@.take(len as int)),
            len > self@.len() ==> r == Err::<Self, ReadError>(ReadError::TooShortToTruncate),
    {
        let mut ret = self.clone();
        match ret.truncate_to(len) {
            Ok(()) => Ok(ret),
            Err(e) => Err(e),
        }
    }

    /// Takes the next `n` bytes, or fails and consumes nothing where fewer are left.
    fn take_bytes(&mut self, n: usize) -> (r: Result<&'a [u8], ReadError>)
        ensures
            n <= old(self)@.len() ==> (r matches Ok(s) && s@ == old(self)@.take(n as int)
                && final(self)@ == old(self)@.skip(n as int)),
            n > old(self)@.len() ==> r == Err::<&'a [u8], ReadError>(ReadError::UnexpectedEof)
                && final(self)@ == old(self)@,
    {
        if n <= self.data.len() {
            let head = vstd::slice::slice_subrange(self.data, 0, n);
            self.data = vstd::slice::slice_subrange(self.data, n, self.data.len());
            Ok(head)
        } else {
            Err(ReadError::UnexpectedEof)
        }
    }

    pub fn read_u8(&mut self) -> (r: Result<u8, ReadError>)
        ensures
            old(self)@.len() >= 1 ==> r == Ok::<u8, ReadError>(old(self)@[0]) && final(self)@
                == old(self)@.skip(1),
            old(self)@.len() < 1 ==> r == Err::<u8, ReadError>(ReadError::UnexpectedEof)
                && final(self)@ == old(self)@,
    {
        let bytes = self.take_bytes(1)?;
        Ok(bytes[0])
    }

    pub fn read_i8(&mut self) -> (r: Result<i8, ReadError>)
        ensures
            old(self)@.len() >= 1 ==> r == Ok::<i8, ReadError>(old(self)@[0] as i8)
                && final(self)@ == old(self)@.skip(1),
            old(self)@.len() < 1 ==> r == Err::<i8, ReadError>(ReadError::UnexpectedEof)
                && final(self)@ == old(self)@,
    {
        let b = self.read_u8()?;
        Ok(b as i8)
    }

    /// Reads one byte as a boolean: 0 reads as `true` and 1 as `false`; any
    /// other byte is an error (the byte is consumed either way).
    pub fn read_bool(&mut self) -> (r: Result<bool, ReadError>)
        ensures
            old(self)@.len() >= 1 ==> final(self)@ == old(self)@.skip(1) && r == (if old(self)@[0]
                == 0 {
                Ok::<bool, ReadError>(true)
            } else if old(self)@[0] == 1 {
                Ok::<bool, ReadError>(false)
            } else {
                Err::<bool, ReadError>(ReadError::InvalidBool)
            }),
            old(self)@.len() < 1 ==> r == Err::<bool, ReadError>(ReadError::UnexpectedEof)
                && final(self)@ == old(self)@,
    {
        match self.read_u8()? {
            0 => Ok(true),
            1 => Ok(false),
            _ => Err(ReadError::InvalidBool),
        }
    }
}

impl<'a, E: Endianness> SliceReader<'a, E> {
    pub fn read_u16(&mut self) -> (r: Result<u16, ReadError>)
        ensures
            old(self)@.len() >= 2 ==> r == Ok::<u16, ReadError>(decode_u16(E::is_big(), old(self)@))
                && final(self)@ == old(self)@.skip(2),
            old(self)@.len() < 2 ==> r == Err::<u16, ReadError>(ReadError::UnexpectedEof)
                && final(self)@ == old(self)@,
    {
        let bytes = self.take_bytes(2)?;
        let v = E::from_bytes_u16(bytes);
        Ok(v)
    }

    pub fn read_i16(&mut self) -> (r: Result<i16, ReadError>)
        ensures
            old(self)@.len() >= 2 ==> r == Ok::<i16, ReadError>(
                decode_u16(E::is_big(), old(self)@) as i16,
            ) && final(self)@ == old(self)@.skip(2),
            old(self)@.len() < 2 ==> r == Err::<i16, ReadError>(ReadError::UnexpectedEof)
                && final(self)@ == old(self)@,
    {
        let v = self.read_u16()?;
        Ok(v as i16)
    }

    pub fn read_u32(&mut self) -> (r: Result<u32, ReadError>)
        ensures
            old(self)@.len() >= 4 ==> r == Ok::<u32, ReadError>(decode_u32(E::is_big(), old(self)@))
                && final(self)@ == old(self)@.skip(4),
            old(self)@.len() < 4 ==> r == Err::<u32, ReadError>(ReadError::UnexpectedEof)
                && final(self)@ == old(self)@,
    {
        let bytes = self.take_bytes(4)?;
        let v = E::from_bytes_u32(bytes);
        Ok(v)
    }

    pub fn read_i32(&mut self) -> (r: Result<i32, ReadError>)
        ensures
            old(self)@.len() >= 4 ==> r == Ok::<i32, ReadError>(
                decode_u32(E::is_big(), old(self)@) as i32,
            ) && final(self)@ == old(self)@.skip(4),
            old(self)@.len() < 4 ==> r == Err::<i32, ReadError>(ReadError::UnexpectedEof)
                && final(self)@ == old(self)@,
    {
        let v = self.read_u32()?;
        Ok(v as i32)
    }

    pub fn read_u64(&mut self) -> (r: Result<u64, ReadError>)
        ensures
            old(self)@.len() >= 8 ==> r == Ok::<u64, ReadError>(decode_u64(E::is_big(), old(self)@))
                && final(self)@ == old(self)@.skip(8),
            old(self)@.len() < 8 ==> r == Err::<u64, ReadError>(ReadError::UnexpectedEof)
                && final(self)@ == old(self)@,
    {
        let bytes = self.take_bytes(8)?;
        let v = E::from_bytes_u64(bytes);
        Ok(v)
    }

    pub fn read_i64(&mut self) -> (r: Result<i64, ReadError>)
        ensures
            old(self)@.len() >= 8 ==> r == Ok::<i64, ReadError>(
                decode_u64(E::is_big(), old(self)@) as i64,
            ) && final(self)@ == old(self)@.skip(8),
            old(self)@.len() < 8 ==> r == Err::<i64, ReadError>(ReadError::UnexpectedEof)
                && final(self)@ == old(self)@,
    {
        let v = self.read_u64()?;
        Ok(v as i64)
    }
}

/// An object that can be read from a stream of bytes.
///
/// `spec_read` says what reading gives: the value (by its deep view) and the
/// number of bytes that it takes, or `None` where reading fails.
pub trait Readable<'a, E: Endianness>: Sized + DeepView {
    type Args;

    spec fn spec_read(data: Seq<u8>, args: Self::Args) -> Option<(<Self as DeepView>::V, nat)>;

    /// The number of bytes that a value takes when it is written out.
    spec fn spec_size(v: <Self as DeepView>::V) -> nat;

    /// The size that every value of the type has, where there is one.
    spec fn spec_fixed_size() -> Option<nat>;

    /// A read never takes more bytes than there are, and it takes exactly the
    /// size of the value that it gives.
    proof fn lemma_read_size(data: Seq<u8>, args: Self::Args)
        ensures
            Self::spec_read(data, args) matches Some((v, n)) ==> n <= data.len() && n
                == Self::spec_size(v),
    ;

    /// A read depends only on the bytes that it takes: whatever follows them
    /// does not change what it gives.
    proof fn lemma_read_prefix(data: Seq<u8>, args: Self::Args, more: Seq<u8>)
        ensures
            Self::spec_read(data, args) matches Some((v, n)) ==> n <= data.len()
                && Self::spec_read(data.take(n as int) + more, args) == Some((v, n)),
    ;

    /// A type with a fixed size gives every value that size.
    proof fn lemma_fixed_size(v: <Self as DeepView>::V)
        ensures
            Self::spec_fixed_size() matches Some(k) ==> Self::spec_size(v) == k,
    ;

    fn read_from(reader: &mut SliceReader<'a, E>, args: Self::Args) -> (res: Result<
        Self,
        ReadError,
    >)
        ensures
            match Self::spec_read(old(reader)@, args) {
                Some((v, n)) => (res matches Ok(r) && r.deep_view() == v) && final(reader)@ == old(
                    reader,
                )@.skip(n as int),
                None => res is Err,
            },
    ;

    fn size(&self) -> (r: Result<usize, ReadError>)
        ensures
            r matches Ok(s) ==> s == Self::spec_size(self.deep_view()),
            r is Err ==> Self::spec_size(self.deep_view()) > usize::MAX,
    ;

    fn fixed_size() -> (r: Option<usize>)
        ensures
            r matches Some(k) ==> Self::spec_fixed_size() == Some(k as nat),
            r is None ==> Self::spec_fixed_size() is None,
    ;
}

/// Reading a `Readable` straight from a reader.
pub trait ReaderEx<'a, E: Endianness>: Sized + View<V = Seq<u8>> {
    fn read<T: Readable<'a, E>>(&mut self, args: T::Args) -> (res: Result<T, ReadError>)
        ensures
            match T::spec_read(old(self)@, args) {
                Some((v, n)) => (res matches Ok(r) && r.deep_view() == v) && final(self)@ == old(
                    self,
                )@.skip(n as int),
                None => res is Err,
            },
    ;
}

impl<'a, E: Endianness> ReaderEx<'a, E> for SliceReader<'a, E> {
    fn read<T: Readable<'a, E>>(&mut self, args: T::Args) -> (res: Result<T, ReadError>) {
        T::read_from(self, args)
    }
}

} // verus!
