//! An array with one element for each of a list of arguments, each element
//! read with its own argument, lazily until it is owned.
use vstd::prelude::*;
use crate::array::{spec_sizes, spec_write_many};
use crate::cow::LCow;
use crate::endian::Endianness;
use crate::reader::{Readable, ReadError, ReaderEx, SliceReader};
use crate::writer::{VecWriter, Writable};

verus! {

/// Reading one element for each argument, one after the other: their values
/// and the bytes that they take together.
pub open spec fn spec_read_each<'a, E: Endianness, T: Readable<'a, E>>(
    data: Seq<u8>,
    args: Seq<T::Args>,
) -> Option<(Seq<<T as DeepView>::V>, nat)>
    decreases args.len(),
{
    if args.len() == 0 {
        Some((Seq::empty(), 0nat))
    } else {
        match spec_read_each::<E, T>(data, args.drop_last()) {
            Some((vs, m)) => match T::spec_read(data.skip(m as int), args.last()) {
                Some((v, k)) => Some((vs.push(v), m + k)),
                None => None,
            },
            None => None,
        }
    }
}

/// Reading the elements takes their total size, and no more bytes than
/// there are.
pub proof fn lemma_read_each_size<'a, E: Endianness, T: Readable<'a, E>>(data: Seq<u8>, args: Seq<T::Args>)
    ensures
        spec_read_each::<E, T>(data, args) matches Some((vs, n)) ==> n <= data.len() && n
            == spec_sizes::<'a, E, T>(vs) && vs.len() == args.len(),
    decreases args.len(),
{
    if args.len() > 0 {
        lemma_read_each_size::<'a, E, T>(data, args.drop_last());
        if let Some((vs, m)) = spec_read_each::<E, T>(data, args.drop_last()) {
            T::lemma_read_size(data.skip(m as int), args.last());
            if let Some((v, k)) = T::spec_read(data.skip(m as int), args.last()) {
                assert(vs.push(v).drop_last() =~= vs);
            }
        }
    }
}

/// Reading the elements depends only on the bytes that they take.
pub proof fn lemma_read_each_prefix<'a, E: Endianness, T: Readable<'a, E>>(
    data: Seq<u8>,
    args: Seq<T::Args>,
    more: Seq<u8>,
)
    ensures
        spec_read_each::<E, T>(data, args) matches Some((vs, n)) ==> n <= data.len()
            && spec_read_each::<E, T>(data.take(n as int) + more, args) == Some((vs, n)),
    decreases args.len(),
{
    lemma_read_each_size::<'a, E, T>(data, args);
    if args.len() > 0 {
        if let Some((vs, n)) = spec_read_each::<E, T>(data, args) {
            let (ws, m) = spec_read_each::<E, T>(data, args.drop_last()).unwrap();
            let (v, k) = T::spec_read(data.skip(m as int), args.last()).unwrap();
            T::lemma_read_size(data.skip(m as int), args.last());
            let d2 = data.take(n as int) + more;
            lemma_read_each_prefix::<'a, E, T>(
                data,
                args.drop_last(),
                data.skip(m as int).take(k as int) + more,
            );
            assert(data.take(m as int) + (data.skip(m as int).take(k as int) + more) =~= d2);
            T::lemma_read_prefix(data.skip(m as int), args.last(), more);
            assert(d2.skip(m as int) =~= data.skip(m as int).take(k as int) + more);
        }
    }
}

/// Once reading fails for the first `i` arguments, it fails for all.
pub proof fn lemma_read_each_fails_on<'a, E: Endianness, T: Readable<'a, E>>(
    data: Seq<u8>,
    args: Seq<T::Args>,
    i: int,
)
    requires
        0 <= i <= args.len(),
        spec_read_each::<E, T>(data, args.take(i)) is None,
    ensures
        spec_read_each::<E, T>(data, args) is None,
    decreases args.len() - i,
{
    if i < args.len() {
        assert(args.take(i + 1).drop_last() =~= args.take(i));
        lemma_read_each_fails_on::<'a, E, T>(data, args, i + 1);
    } else {
        assert(args.take(i) =~= args);
    }
}

/// The bytes that the elements take at the start of `data`, where they are
/// there: for an element type with a fixed size, that size for each
/// argument; otherwise what reading them takes.
pub open spec fn spec_each_byte_len<'a, E: Endianness, T: Readable<'a, E>>(
    data: Seq<u8>,
    args: Seq<T::Args>,
) -> Option<nat> {
    match T::spec_fixed_size() {
        Some(k) => if k * args.len() <= data.len() {
            Some(k * args.len())
        } else {
            None
        },
        None => match spec_read_each::<E, T>(data, args) {
            Some((_, n)) => Some(n),
            None => None,
        },
    }
}

/// Reads one element for each argument, in order.
fn read_each<'a, E: Endianness, T: Readable<'a, E>>(reader: &mut SliceReader<'a, E>, args: &Vec<T::Args>) -> (r:
    Result<Vec<T>, ReadError>)
    where
        T::Args: Copy,
    ensures
        match spec_read_each::<E, T>(old(reader)@, args@) {
            Some((vs, n)) => (r matches Ok(v) && v.deep_view() == vs) && final(reader)@ == old(reader)@.skip(
                n as int,
            ),
            None => r is Err,
        },
{
    let ghost data = reader@;
    let mut out: Vec<T> = Vec::new();
    let mut i: usize = 0;
    let ghost mut consumed: nat = 0;
    proof {
        assert(args@.take(0) =~= Seq::<T::Args>::empty());
        assert(data.skip(0) =~= data);
    }
    while i < args.len()
        invariant
            0 <= i <= args@.len(),
            data == old(reader)@,
            spec_read_each::<E, T>(data, args@.take(i as int)) == Some((out.deep_view(), consumed)),
            consumed <= data.len(),
            reader@ == data.skip(consumed as int),
        decreases args@.len() - i,
    {
        proof {
            assert(args@.take(i + 1).drop_last() =~= args@.take(i as int));
            assert(args@.take(i + 1).last() == args@[i as int]);
        }
        let ghost old_out = out.deep_view();
        match reader.read::<T>(args[i]) {
            Ok(v) => {
                proof {
                    T::lemma_read_size(data.skip(consumed as int), args@[i as int]);
                    let (_, k) = T::spec_read(data.skip(consumed as int), args@[i as int]).unwrap();
                    assert(data.skip(consumed as int).skip(k as int) =~= data.skip((consumed + k) as int));
                    consumed = consumed + k;
                }
                out.push(v);
                i = i + 1;
                assert(out.deep_view() =~= old_out.push(v.deep_view()));
            },
            Err(e) => {
                proof {
                    lemma_read_each_fails_on::<'a, E, T>(data, args@, i + 1);
                }
                return Err(e);
            },
        }
    }
    proof {
        assert(args@.take(args@.len() as int) =~= args@);
    }
    Ok(out)
}

/// An array that is either the bytes its elements are read from, with one
/// argument for each element, or a vector of owned elements.
pub enum IteratorArray<'a, E: Endianness, T: Readable<'a, E>> {
    Borrowed(SliceReader<'a, E>, Vec<T::Args>),
    Owned(Vec<T>),
}

impl<'a, E: Endianness, T: Readable<'a, E>> DeepView for IteratorArray<'a, E, T> {
    /// Whether it is owned; the bytes and the arguments of a borrowed array;
    /// the elements of an owned one.
    type V = (bool, Seq<u8>, Seq<T::Args>, Seq<<T as DeepView>::V>);

    open spec fn deep_view(&self) -> (bool, Seq<u8>, Seq<T::Args>, Seq<<T as DeepView>::V>) {
        match self {
            IteratorArray::Borrowed(r, args) => (false, r@, args@, Seq::empty()),
            IteratorArray::Owned(v) => (true, Seq::empty(), Seq::empty(), v.deep_view()),
        }
    }
}

impl<'a, E: Endianness, T: Readable<'a, E>> IteratorArray<'a, E, T> {
    /// The number of elements: one for each argument of a borrowed array.
    pub open spec fn length(&self) -> nat {
        match self {
            IteratorArray::Borrowed(_, args) => args@.len(),
            IteratorArray::Owned(v) => v@.len(),
        }
    }

    pub fn len(&self) -> (r: usize)
        ensures
            r == self.length(),
    {
        match self {
            IteratorArray::Borrowed(_, args) => args.len(),
            IteratorArray::Owned(vec) => vec.len(),
        }
    }
}

impl<'a, E: Endianness, T: Readable<'a, E>> IteratorArray<'a, E, T> where T::Args: Copy {
    /// The elements, one at a time.
    pub fn iter<'s>(&'s self) -> (r: IteratorArrayIterator<'s, 'a, E, T>)
        ensures
            match *self {
                IteratorArray::Borrowed(reader, args) => r matches IteratorArrayIterator::Borrowed(r2, a2, i)
                    && r2@ == reader@ && *a2 == args && i == 0,
                IteratorArray::Owned(v) => r matches IteratorArrayIterator::Owned(w, i) && *w == v && i == 0,
            },
    {
        match self {
            IteratorArray::Borrowed(reader, args) => IteratorArrayIterator::Borrowed(reader.clone(), args, 0),
            IteratorArray::Owned(vec) => IteratorArrayIterator::Owned(vec, 0),
        }
    }

    /// The elements as an owned vector, to be changed in place: a borrowed
    /// array is read whole first and becomes owned; where an element cannot
    /// be read, the array stays as it was.
    pub fn as_mut_vec(&mut self) -> (r: Result<&mut Vec<T>, ReadError>)
        ensures
            match *old(self) {
                IteratorArray::Owned(v) => r matches Ok(w) && *w == v && *final(self) == IteratorArray::<
                    'a,
                    E,
                    T,
                >::Owned(*final(w)),
                IteratorArray::Borrowed(reader, args) => match spec_read_each::<E, T>(reader@, args@) {
                    Some((vs, _)) => r matches Ok(w) && w.deep_view() == vs && *final(self)
                        == IteratorArray::<'a, E, T>::Owned(*final(w)),
                    None => r is Err && *final(self) == *old(self),
                },
            },
    {
        if let IteratorArray::Borrowed(reader, args) = self {
            let mut r = reader.clone();
            let vec = match read_each::<E, T>(&mut r, args) {
                Ok(vec) => vec,
                Err(e) => {
                    return Err(e);
                },
            };
            *self = IteratorArray::Owned(vec);
        }
        match self {
            IteratorArray::Owned(vec) => Ok(vec),
            IteratorArray::Borrowed(_, _) => vstd::pervasive::unreached(),
        }
    }
}

/// A cursor over the elements of an `IteratorArray`: a borrowed array's
/// elements are read one at a time, each with its argument; an owned array's
/// are lent out.
pub enum IteratorArrayIterator<'s, 'a, E: Endianness, T: Readable<'a, E>> {
    Borrowed(SliceReader<'a, E>, &'s Vec<T::Args>, usize),
    Owned(&'s Vec<T>, usize),
}

impl<'s, 'a, E: Endianness, T: Readable<'a, E>> IteratorArrayIterator<'s, 'a, E, T> {
    /// How many elements are left.
    pub open spec fn remaining(&self) -> nat {
        match self {
            IteratorArrayIterator::Borrowed(_, args, i) => if *i <= args@.len() {
                (args@.len() - *i) as nat
            } else {
                0
            },
            IteratorArrayIterator::Owned(v, i) => if *i <= v@.len() {
                (v@.len() - *i) as nat
            } else {
                0
            },
        }
    }

    pub fn len(&self) -> (r: usize)
        ensures
            r == self.remaining(),
    {
        match self {
            IteratorArrayIterator::Borrowed(_, args, i) => if *i <= args.len() {
                args.len() - *i
            } else {
                0
            },
            IteratorArrayIterator::Owned(v, i) => if *i <= v.len() {
                v.len() - *i
            } else {
                0
            },
        }
    }
}

impl<'s, 'a, E: Endianness, T: Readable<'a, E>> IteratorArrayIterator<'s, 'a, E, T> where T::Args: Copy {
    /// The next element, where one is left: a borrowed one read with its
    /// argument from where the last one ended, an owned one by reference.
    pub fn next(&mut self) -> (r: Option<Result<LCow<'s, T>, ReadError>>)
        ensures
            old(self).remaining() == 0 ==> r is None,
            old(self).remaining() > 0 ==> final(self).remaining() == old(self).remaining() - 1,
            match *old(self) {
                IteratorArrayIterator::Owned(v, i) => i < v@.len() ==> (r matches Some(Ok(LCow::Borrowed(x)))
                    && *x == v@[i as int]) && *final(self) == IteratorArrayIterator::<'s, 'a, E, T>::Owned(
                    v,
                    (i + 1) as usize,
                ),
                IteratorArrayIterator::Borrowed(reader, args, i) => i < args@.len() ==> (*final(self) matches IteratorArrayIterator::Borrowed(
                    r2,
                    a2,
                    j,
                ) && a2 == args && j == i + 1 && match T::spec_read(reader@, args@[i as int]) {
                    Some((v, n)) => (r matches Some(Ok(LCow::Owned(x))) && x.deep_view() == v) && r2@
                        == reader@.skip(n as int),
                    None => r matches Some(Err(_)),
                }),
            },
    {
        match self {
            IteratorArrayIterator::Borrowed(reader, args, i) => {
                let list: &'s Vec<T::Args> = *args;
                if *i < list.len() {
                    let k = *i;
                    *i = k + 1;
                    match reader.read::<T>(list[k]) {
                        Ok(x) => Some(Ok(LCow::Owned(x))),
                        Err(e) => Some(Err(e)),
                    }
                } else {
                    None
                }
            },
            IteratorArrayIterator::Owned(v, i) => {
                let vec: &'s Vec<T> = *v;
                if *i < vec.len() {
                    let k = *i;
                    *i = k + 1;
                    Some(Ok(LCow::Borrowed(&vec[k])))
                } else {
                    None
                }
            },
        }
    }
}

impl<'a, E: Endianness, T: Readable<'a, E>> Readable<'a, E> for IteratorArray<'a, E, T> where T::Args: Copy {
    type Args = Vec<T::Args>;

    /// An array is read as the bytes of its elements, borrowed, with the
    /// arguments kept.
    open spec fn spec_read(data: Seq<u8>, args: Vec<T::Args>) -> Option<
        ((bool, Seq<u8>, Seq<T::Args>, Seq<<T as DeepView>::V>), nat),
    > {
        match spec_each_byte_len::<'a, E, T>(data, args@) {
            Some(n) => Some(((false, data.take(n as int), args@, Seq::empty()), n)),
            None => None,
        }
    }

    /// An owned array takes its elements' sizes; a borrowed one the size of
    /// each element for an element type with a fixed size, else what reading
    /// its elements takes. A borrowed array whose elements cannot be read has
    /// no size that fits in memory.
    open spec fn spec_size(v: (bool, Seq<u8>, Seq<T::Args>, Seq<<T as DeepView>::V>)) -> nat {
        if v.0 {
            spec_sizes::<'a, E, T>(v.3)
        } else {
            match T::spec_fixed_size() {
                Some(k) => k * v.2.len(),
                None => match spec_read_each::<E, T>(v.1, v.2) {
                    Some((_, n)) => n,
                    None => (usize::MAX + 1) as nat,
                },
            }
        }
    }

    open spec fn spec_fixed_size() -> Option<nat> {
        None
    }

    proof fn lemma_read_size(data: Seq<u8>, args: Vec<T::Args>) {
        if T::spec_fixed_size() is None {
            lemma_read_each_prefix::<'a, E, T>(data, args@, Seq::empty());
            if let Some((_, n)) = spec_read_each::<E, T>(data, args@) {
                assert(data.take(n as int) + Seq::<u8>::empty() =~= data.take(n as int));
            }
        }
    }

    proof fn lemma_read_prefix(data: Seq<u8>, args: Vec<T::Args>, more: Seq<u8>) {
        lemma_read_each_size::<'a, E, T>(data, args@);
        if let Some(n) = spec_each_byte_len::<'a, E, T>(data, args@) {
            assert((data.take(n as int) + more).take(n as int) =~= data.take(n as int));
            if T::spec_fixed_size() is None {
                lemma_read_each_prefix::<'a, E, T>(data, args@, more);
            }
        }
    }

    proof fn lemma_fixed_size(v: (bool, Seq<u8>, Seq<T::Args>, Seq<<T as DeepView>::V>)) {
    }

    fn read_from(reader: &mut SliceReader<'a, E>, args: Vec<T::Args>) -> (res: Result<
        IteratorArray<'a, E, T>,
        ReadError,
    >) {
        let ghost data = reader@;
        let _dlen = reader.len();
        let n: usize = match T::fixed_size() {
            Some(k) => match k.checked_mul(args.len()) {
                Some(s) => s,
                None => {
                    return Err(ReadError::SizeOverflow);
                },
            },
            None => {
                let mut r = reader.clone();
                match read_each::<E, T>(&mut r, &args) {
                    Ok(_) => {},
                    Err(e) => {
                        return Err(e);
                    },
                }
                proof {
                    lemma_read_each_size::<'a, E, T>(data, args@);
                }
                reader.len() - r.len()
            },
        };
        let bytes = reader.truncate_clone_to(n)?;
        reader.advance(n)?;
        Ok(IteratorArray::Borrowed(bytes, args))
    }

    fn size(&self) -> (r: Result<usize, ReadError>) {
        match self {
            IteratorArray::Borrowed(reader, args) => match T::fixed_size() {
                Some(k) => match k.checked_mul(args.len()) {
                    Some(s) => Ok(s),
                    None => Err(ReadError::SizeOverflow),
                },
                None => {
                    let mut r = reader.clone();
                    match read_each::<E, T>(&mut r, args) {
                        Ok(_) => {},
                        Err(e) => {
                            return Err(e);
                        },
                    }
                    proof {
                        lemma_read_each_size::<'a, E, T>(reader@, args@);
                    }
                    Ok(reader.len() - r.len())
                },
            },
            IteratorArray::Owned(vec) => vec.size(),
        }
    }

    fn fixed_size() -> (r: Option<usize>) {
        None
    }
}

impl<'a, E: Endianness, T: Readable<'a, E> + Writable<E>> Writable<E> for IteratorArray<'a, E, T> where
    T::Args: Copy,
 {
    /// An owned array is written element by element; a borrowed one is read
    /// and its elements written, or nothing where they cannot be read.
    open spec fn spec_write(v: (bool, Seq<u8>, Seq<T::Args>, Seq<<T as DeepView>::V>)) -> Seq<u8> {
        if v.0 {
            spec_write_many::<E, T>(v.3)
        } else {
            match spec_read_each::<E, T>(v.1, v.2) {
                Some((vs, _)) => spec_write_many::<E, T>(vs),
                None => Seq::empty(),
            }
        }
    }

    fn write_to(&self, writer: &mut VecWriter<E>) -> (r: u64) {
        match self {
            IteratorArray::Borrowed(reader, args) => {
                let mut r = reader.clone();
                match read_each::<E, T>(&mut r, args) {
                    Ok(vec) => vec.write_to(writer),
                    Err(_) => {
                        assert(writer@ =~= old(writer)@ + Seq::<u8>::empty());
                        0
                    },
                }
            },
            IteratorArray::Owned(vec) => vec.write_to(writer),
        }
    }
}

impl<'a, E: Endianness, T: Readable<'a, E>> From<Vec<T>> for IteratorArray<'a, E, T> {
    /// An owned array of the elements.
    fn from(vec: Vec<T>) -> (r: IteratorArray<'a, E, T>) {
        IteratorArray::Owned(vec)
    }
}

impl<'a, E: Endianness, T: Readable<'a, E>> vstd::std_specs::convert::FromSpecImpl<Vec<T>> for IteratorArray<'a, E, T> {
    open spec fn obeys_from_spec() -> bool {
        true
    }

    open spec fn from_spec(v: Vec<T>) -> IteratorArray<'a, E, T> {
        IteratorArray::Owned(v)
    }
}

} // verus!
