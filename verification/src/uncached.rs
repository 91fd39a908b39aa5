//! A value kept as the bytes it was read from, and read again each time it
//! is asked for, until it is owned.
use vstd::prelude::*;
use crate::cow::LCow;
use crate::endian::Endianness;
use crate::reader::{Readable, ReadError, ReaderEx, SliceReader};
use crate::writer::{VecWriter, Writable};

verus! {

/// A value that is either the bytes it was read from, with the arguments to
/// read it with, or an owned value.
pub enum Uncached<'a, E: Endianness, T: Readable<'a, E>> {
    Borrowed(SliceReader<'a, E>, T::Args),
    Owned(Box<T>),
}

/// The value that reading `data` with `args` gives, where reading succeeds.
pub open spec fn spec_read_value<'a, E: Endianness, T: Readable<'a, E>>(data: Seq<u8>, args: T::Args) -> Option<
    <T as DeepView>::V,
> {
    match T::spec_read(data, args) {
        Some((v, _)) => Some(v),
        None => None,
    }
}

impl<'a, E: Endianness, T: Readable<'a, E>> DeepView for Uncached<'a, E, T> {
    /// Whether it is owned; the bytes of a borrowed value; the value, where
    /// the bytes read as one.
    type V = (bool, Seq<u8>, Option<<T as DeepView>::V>);

    open spec fn deep_view(&self) -> (bool, Seq<u8>, Option<<T as DeepView>::V>) {
        match self {
            Uncached::Borrowed(r, args) => (false, r@, spec_read_value::<'a, E, T>(r@, *args)),
            Uncached::Owned(t) => (true, Seq::empty(), Some(t.deep_view())),
        }
    }
}

impl<'a, E: Endianness, T: Readable<'a, E>> Uncached<'a, E, T> where T::Args: Copy {
    /// The value: a borrowed one read from its bytes, an owned one by
    /// reference.
    pub fn get<'s>(&'s self) -> (r: Result<LCow<'s, T>, ReadError>)
        ensures
            match *self {
                Uncached::Borrowed(reader, args) => match T::spec_read(reader@, args) {
                    Some((v, _)) => r matches Ok(LCow::Owned(x)) && x.deep_view() == v,
                    None => r is Err,
                },
                Uncached::Owned(t) => r matches Ok(LCow::Borrowed(x)) && *x == *t,
            },
    {
        match self {
            Uncached::Borrowed(reader, args) => {
                let mut r = reader.clone();
                match r.read::<T>(*args) {
                    Ok(t) => Ok(LCow::Owned(t)),
                    Err(e) => Err(e),
                }
            },
            Uncached::Owned(t) => Ok(LCow::Borrowed(&**t)),
        }
    }
}

impl<'a, E: Endianness, T: Readable<'a, E>> Uncached<'a, E, T> where T::Args: Copy {
    /// The value, owned, to be changed in place: a borrowed one is read from
    /// its bytes first and becomes owned; where it cannot be read, it stays
    /// as it was.
    pub fn get_mut(&mut self) -> (r: Result<&mut T, ReadError>)
        ensures
            match *old(self) {
                Uncached::Owned(t) => r matches Ok(x) && *x == *t && *final(self) == Uncached::<'a, E, T>::Owned(
                    Box::new(*final(x)),
                ),
                Uncached::Borrowed(reader, args) => match T::spec_read(reader@, args) {
                    Some((v, _)) => r matches Ok(x) && x.deep_view() == v && *final(self) == Uncached::<
                        'a,
                        E,
                        T,
                    >::Owned(Box::new(*final(x))),
                    None => r is Err && *final(self) == *old(self),
                },
            },
    {
        if let Uncached::Borrowed(reader, args) = self {
            let mut r = reader.clone();
            let t = match r.read::<T>(*args) {
                Ok(t) => t,
                Err(e) => {
                    return Err(e);
                },
            };
            *self = Uncached::Owned(Box::new(t));
        }
        match self {
            Uncached::Owned(t) => Ok(&mut **t),
            Uncached::Borrowed(_, _) => vstd::pervasive::unreached(),
        }
    }
}

impl<'a, E: Endianness, T: Readable<'a, E> + Clone> Clone for Uncached<'a, E, T> where T::Args: Copy {
    fn clone(&self) -> (r: Self)
        ensures
            match *self {
                Uncached::Borrowed(reader, args) => r matches Uncached::Borrowed(r2, a2) && r2@ == reader@ && a2
                    == args,
                Uncached::Owned(t) => r matches Uncached::Owned(t2) && cloned(*t, *t2),
            },
    {
        match self {
            Uncached::Borrowed(reader, args) => Uncached::Borrowed(reader.clone(), *args),
            Uncached::Owned(t) => {
                let inner: &T = &**t;
                Uncached::Owned(Box::new(inner.clone()))
            },
        }
    }
}

impl<'a, E: Endianness, T: Readable<'a, E>> Readable<'a, E> for Uncached<'a, E, T> where T::Args: Copy {
    type Args = T::Args;

    /// The bytes that reading the value takes, borrowed.
    open spec fn spec_read(data: Seq<u8>, args: T::Args) -> Option<((bool, Seq<u8>, Option<<T as DeepView>::V>), nat)> {
        match T::spec_read(data, args) {
            Some((v, n)) => Some(((false, data.take(n as int), Some(v)), n)),
            None => None,
        }
    }

    /// A borrowed value takes its bytes; an owned one its size.
    open spec fn spec_size(v: (bool, Seq<u8>, Option<<T as DeepView>::V>)) -> nat {
        match v {
            (true, _, Some(t)) => T::spec_size(t),
            _ => v.1.len(),
        }
    }

    open spec fn spec_fixed_size() -> Option<nat> {
        None
    }

    proof fn lemma_read_size(data: Seq<u8>, args: T::Args) {
        T::lemma_read_size(data, args);
    }

    proof fn lemma_read_prefix(data: Seq<u8>, args: T::Args, more: Seq<u8>) {
        T::lemma_read_size(data, args);
        T::lemma_read_prefix(data, args, more);
        if let Some((v, n)) = T::spec_read(data, args) {
            assert((data.take(n as int) + more).take(n as int) =~= data.take(n as int));
        }
    }

    proof fn lemma_fixed_size(v: (bool, Seq<u8>, Option<<T as DeepView>::V>)) {
    }

    fn read_from(reader: &mut SliceReader<'a, E>, args: T::Args) -> (res: Result<Uncached<'a, E, T>, ReadError>) {
        let ghost data = reader@;
        let start = reader.clone();
        let start_len = start.len();
        proof {
            T::lemma_read_size(data, args);
            T::lemma_read_prefix(data, args, Seq::empty());
        }
        match T::read_from(reader, args) {
            Ok(_) => {},
            Err(e) => {
                return Err(e);
            },
        }
        let size = start_len - reader.len();
        let mut bytes = start;
        match bytes.truncate_to(size) {
            Ok(()) => {},
            Err(e) => {
                return Err(e);
            },
        }
        proof {
            let n = size as nat;
            assert(data.take(n as int) + Seq::<u8>::empty() =~= data.take(n as int));
        }
        Ok(Uncached::Borrowed(bytes, args))
    }

    fn size(&self) -> (r: Result<usize, ReadError>) {
        match self {
            Uncached::Borrowed(reader, _) => Ok(reader.len()),
            Uncached::Owned(t) => t.size(),
        }
    }

    fn fixed_size() -> (r: Option<usize>) {
        None
    }
}

impl<'a, E: Endianness, T: Readable<'a, E> + Writable<E>> Writable<E> for Uncached<'a, E, T> {
    /// A borrowed value is written as its bytes, an owned one as itself.
    open spec fn spec_write(v: (bool, Seq<u8>, Option<<T as DeepView>::V>)) -> Seq<u8> {
        match v {
            (true, _, Some(t)) => T::spec_write(t),
            _ => v.1,
        }
    }

    fn write_to(&self, writer: &mut VecWriter<E>) -> (r: u64) {
        match self {
            Uncached::Borrowed(reader, _) => {
                let bytes = reader.as_slice();
                writer.write_bytes(bytes);
                bytes.len() as u64
            },
            Uncached::Owned(t) => t.write_to(writer),
        }
    }
}

} // verus!
