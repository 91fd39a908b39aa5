//! An array that is read lazily from bytes until it is owned.
use vstd::prelude::*;
use crate::array::{spec_read_many, spec_sizes, spec_write_many, RoArray, RoArrayIter};
use crate::cow::LCow;
use crate::endian::Endianness;
use crate::reader::{Readable, ReadError, SliceReader};
use crate::writer::{VecWriter, Writable};

verus! {

/// An array that is either still the bytes it was read from, read an element
/// at a time, or a vector of owned elements.
pub enum LazyArray<'a, E: Endianness, T: Readable<'a, E>> {
    Borrowed(RoArray<'a, E, T>),
    Owned(Vec<T>),
}

impl<'a, E: Endianness, T: Readable<'a, E>> DeepView for LazyArray<'a, E, T> {
    /// Whether it is owned; the bytes, length and element arguments of a
    /// borrowed array (none that matter for an owned one); the elements of an
    /// owned one.
    type V = (bool, (Seq<u8>, nat, T::Args), Seq<<T as DeepView>::V>);

    open spec fn deep_view(&self) -> (bool, (Seq<u8>, nat, T::Args), Seq<<T as DeepView>::V>) {
        match self {
            LazyArray::Borrowed(a) => (false, a.deep_view(), Seq::empty()),
            LazyArray::Owned(v) => (true, (Seq::empty(), 0, arbitrary()), v.deep_view()),
        }
    }
}

impl<'a, E: Endianness, T: Readable<'a, E>> LazyArray<'a, E, T> {
    /// The number of elements.
    pub open spec fn length(&self) -> nat {
        match self {
            LazyArray::Borrowed(a) => a.length(),
            LazyArray::Owned(v) => v@.len(),
        }
    }

    pub fn len(&self) -> (r: usize)
        ensures
            r == self.length(),
    {
        match self {
            LazyArray::Borrowed(array) => array.len(),
            LazyArray::Owned(vec) => vec.len(),
        }
    }

    /// Whether the elements are owned.
    pub fn is_owned(&self) -> (r: bool)
        ensures
            r == (*self is Owned),
    {
        match self {
            LazyArray::Borrowed(_) => false,
            LazyArray::Owned(_) => true,
        }
    }
}

impl<'a, E: Endianness, T: Readable<'a, E>> LazyArray<'a, E, T> where T::Args: Copy {
    /// The elements, by reference.
    pub fn iter<'s>(&'s self) -> (r: LazyArrayIter<'s, 'a, E, T>)
        ensures
            match *self {
                LazyArray::Borrowed(a) => r matches LazyArrayIter::Borrowed(it) && it.bytes() == a.bytes()
                    && it.remaining() == a.length() && it.args() == a.args(),
                LazyArray::Owned(v) => r matches LazyArrayIter::Owned(w, i) && *w == v && i == 0,
            },
    {
        match self {
            LazyArray::Borrowed(array) => LazyArrayIter::Borrowed(array.iter()),
            LazyArray::Owned(vec) => LazyArrayIter::Owned(vec, 0),
        }
    }

    /// The element at `index`: an owned element by reference, a borrowed one
    /// read from its bytes (which takes an element type with a fixed size);
    /// `None` past the end.
    pub fn get<'s>(&'s self, index: usize) -> (r: Result<Option<LCow<'s, T>>, ReadError>)
        requires
            *self is Borrowed ==> T::spec_fixed_size() is Some,
        ensures
            index >= self.length() ==> r matches Ok(None),
            match *self {
                LazyArray::Owned(v) => index < v@.len() ==> (r matches Ok(Some(LCow::Borrowed(x))) && *x
                    == v@[index as int]),
                LazyArray::Borrowed(a) => index < a.length() ==> match T::spec_read(
                    a.bytes().skip(index * T::spec_fixed_size().unwrap()),
                    a.args(),
                ) {
                    Some((v, _)) => r matches Ok(Some(LCow::Owned(x))) && x.deep_view() == v,
                    None => r is Err,
                },
            },
    {
        match self {
            LazyArray::Borrowed(array) => match array.get(index) {
                Ok(Some(x)) => Ok(Some(LCow::Owned(x))),
                Ok(None) => Ok(None),
                Err(e) => Err(e),
            },
            LazyArray::Owned(vec) => {
                if index < vec.len() {
                    Ok(Some(LCow::Borrowed(&vec[index])))
                } else {
                    Ok(None)
                }
            },
        }
    }

    /// Splits the array in two at `at`: `self` keeps the first `at` elements
    /// and the result, borrowed or owned as `self` is, holds the rest.
    pub fn split_off(&mut self, at: usize) -> (r: Result<LazyArray<'a, E, T>, ReadError>)
        requires
            at <= old(self).length(),
        ensures
            match *old(self) {
                LazyArray::Owned(v) => (r matches Ok(LazyArray::Owned(w)) && w@ == v@.skip(at as int))
                    && (*final(self) matches LazyArray::Owned(u) && u@ == v@.take(at as int)),
                LazyArray::Borrowed(a) => (r matches Ok(LazyArray::Borrowed(right)) && (*final(self)
                    matches LazyArray::Borrowed(left) && {
                    &&& left.length() == at
                    &&& right.length() == a.length() - at
                    &&& left.args() == a.args()
                    &&& right.args() == a.args()
                    &&& left.bytes() + right.bytes() == a.bytes()
                })),
            },
    {
        match self {
            LazyArray::Borrowed(array) => {
                let right = array.split_off(at)?;
                Ok(LazyArray::Borrowed(right))
            },
            LazyArray::Owned(vec) => {
                let right = vec.split_off(at);
                Ok(LazyArray::Owned(right))
            },
        }
    }
}

impl<'a, E: Endianness, T: Readable<'a, E> + Clone> Clone for LazyArray<'a, E, T> where T::Args: Copy {
    fn clone(&self) -> (r: Self)
        ensures
            match *self {
                LazyArray::Borrowed(a) => r matches LazyArray::Borrowed(b) && b.bytes() == a.bytes()
                    && b.length() == a.length() && b.args() == a.args(),
                LazyArray::Owned(v) => r matches LazyArray::Owned(w) && w.len() == v.len() && forall|i: int|
                    0 <= i < v.len() ==> cloned(v[i], #[trigger] w[i]),
            },
    {
        match self {
            LazyArray::Borrowed(array) => LazyArray::Borrowed(array.clone()),
            LazyArray::Owned(vec) => LazyArray::Owned(vec.clone()),
        }
    }
}

/// A cursor over the elements of a `LazyArray`: a borrowed array's elements
/// are read one at a time, an owned array's are lent out.
pub enum LazyArrayIter<'s, 'a, E: Endianness, T: Readable<'a, E>> {
    Borrowed(RoArrayIter<'a, E, T>),
    Owned(&'s Vec<T>, usize),
}

impl<'s, 'a, E: Endianness, T: Readable<'a, E>> LazyArrayIter<'s, 'a, E, T> {
    /// How many elements are left.
    pub open spec fn remaining(&self) -> nat {
        match self {
            LazyArrayIter::Borrowed(it) => it.remaining(),
            LazyArrayIter::Owned(v, i) => if *i <= v@.len() {
                (v@.len() - *i) as nat
            } else {
                0
            },
        }
    }

    pub fn len(&self) -> (r: usize)
        ensures
            r == self.remaining(),
    {
        match self {
            LazyArrayIter::Borrowed(it) => it.len(),
            LazyArrayIter::Owned(v, i) => if *i <= v.len() {
                v.len() - *i
            } else {
                0
            },
        }
    }
}

impl<'s, 'a, E: Endianness, T: Readable<'a, E>> LazyArrayIter<'s, 'a, E, T> where T::Args: Copy {
    /// The next element, where one is left.
    pub fn next(&mut self) -> (r: Option<Result<LCow<'s, T>, ReadError>>)
        ensures
            old(self).remaining() == 0 ==> r is None,
            old(self).remaining() > 0 ==> final(self).remaining() == old(self).remaining() - 1,
            match *old(self) {
                LazyArrayIter::Owned(v, i) => i < v@.len() ==> (r matches Some(Ok(LCow::Borrowed(x))) && *x
                    == v@[i as int]) && *final(self) == LazyArrayIter::<'s, 'a, E, T>::Owned(v, (i + 1) as usize),
                LazyArrayIter::Borrowed(it) => it.remaining() > 0 ==> (*final(self) matches LazyArrayIter::Borrowed(
                    it2,
                ) && it2.args() == it.args() && match T::spec_read(it.bytes(), it.args()) {
                    Some((v, n)) => (r matches Some(Ok(LCow::Owned(x))) && x.deep_view() == v) && it2.bytes()
                        == it.bytes().skip(n as int),
                    None => r matches Some(Err(_)),
                }),
            },
    {
        match self {
            LazyArrayIter::Borrowed(it) => match it.next() {
                Some(Ok(x)) => Some(Ok(LCow::Owned(x))),
                Some(Err(e)) => Some(Err(e)),
                None => None,
            },
            LazyArrayIter::Owned(v, i) => {
                let vec: &'s Vec<T> = *v;
                if *i < vec.len() {
                    let k = *i;
                    *i = k + 1;
                    Some(Ok(LCow::Borrowed(&vec[k])))
                } else {
                    None
                }
            },
        }
    }
}

impl<'a, E: Endianness, T: Readable<'a, E>> Readable<'a, E> for LazyArray<'a, E, T> where T::Args: Copy {
    type Args = (usize, T::Args);

    /// An array is read as the bytes of its elements, borrowed.
    open spec fn spec_read(data: Seq<u8>, args: (usize, T::Args)) -> Option<
        ((bool, (Seq<u8>, nat, T::Args), Seq<<T as DeepView>::V>), nat),
    > {
        match RoArray::<'a, E, T>::spec_read(data, args) {
            Some((ro, n)) => Some(((false, ro, Seq::empty()), n)),
            None => None,
        }
    }

    /// A borrowed array takes its bytes; an owned one its elements' sizes.
    open spec fn spec_size(v: (bool, (Seq<u8>, nat, T::Args), Seq<<T as DeepView>::V>)) -> nat {
        if v.0 {
            spec_sizes::<'a, E, T>(v.2)
        } else {
            v.1.0.len()
        }
    }

    open spec fn spec_fixed_size() -> Option<nat> {
        None
    }

    proof fn lemma_read_size(data: Seq<u8>, args: (usize, T::Args)) {
        RoArray::<'a, E, T>::lemma_read_size(data, args);
    }

    proof fn lemma_read_prefix(data: Seq<u8>, args: (usize, T::Args), more: Seq<u8>) {
        RoArray::<'a, E, T>::lemma_read_prefix(data, args, more);
    }

    proof fn lemma_fixed_size(v: (bool, (Seq<u8>, nat, T::Args), Seq<<T as DeepView>::V>)) {
    }

    fn read_from(reader: &mut SliceReader<'a, E>, args: (usize, T::Args)) -> (res: Result<
        LazyArray<'a, E, T>,
        ReadError,
    >) {
        match RoArray::<'a, E, T>::read_array(reader, args) {
            Ok(array) => Ok(LazyArray::Borrowed(array)),
            Err(e) => Err(e),
        }
    }

    fn size(&self) -> (r: Result<usize, ReadError>) {
        match self {
            LazyArray::Borrowed(array) => array.size(),
            LazyArray::Owned(vec) => vec.size(),
        }
    }

    fn fixed_size() -> (r: Option<usize>) {
        None
    }
}

impl<'a, E: Endianness, T: Readable<'a, E> + Writable<E>> Writable<E> for LazyArray<'a, E, T> {
    /// A borrowed array is written as its bytes, an owned one element by
    /// element.
    open spec fn spec_write(v: (bool, (Seq<u8>, nat, T::Args), Seq<<T as DeepView>::V>)) -> Seq<u8> {
        if v.0 {
            spec_write_many::<E, T>(v.2)
        } else {
            v.1.0
        }
    }

    fn write_to(&self, writer: &mut VecWriter<E>) -> (r: u64) {
        match self {
            LazyArray::Borrowed(array) => array.write_to(writer),
            LazyArray::Owned(vec) => vec.write_to(writer),
        }
    }
}

impl<'a, E: Endianness, T: Readable<'a, E>> From<Vec<T>> for LazyArray<'a, E, T> {
    /// An owned array of the elements.
    fn from(vec: Vec<T>) -> (r: LazyArray<'a, E, T>) {
        LazyArray::Owned(vec)
    }
}

impl<'a, E: Endianness, T: Readable<'a, E>> vstd::std_specs::convert::FromSpecImpl<Vec<T>> for LazyArray<'a, E, T> {
    open spec fn obeys_from_spec() -> bool {
        true
    }

    open spec fn from_spec(v: Vec<T>) -> LazyArray<'a, E, T> {
        LazyArray::Owned(v)
    }
}


impl<'a, E: Endianness, T: Readable<'a, E>> LazyArray<'a, E, T> where T::Args: Copy {
    /// The elements as an owned vector, to be changed in place: a borrowed
    /// array is read whole first and becomes owned; where an element cannot
    /// be read, the array stays as it was.
    pub fn as_mut_vec(&mut self) -> (r: Result<&mut Vec<T>, ReadError>)
        ensures
            match *old(self) {
                LazyArray::Owned(v) => r matches Ok(w) && *w == v && *final(self) == LazyArray::<'a, E, T>::Owned(*final(w)),
                LazyArray::Borrowed(a) => match spec_read_many::<'a, E, T>(a.bytes(), a.length(), a.args()) {
                    Some((vs, _)) => r matches Ok(w) && w.deep_view() == vs
                        && *final(self) == LazyArray::<'a, E, T>::Owned(*final(w)),
                    None => r is Err && *final(self) == *old(self),
                },
            },
    {
        if let LazyArray::Borrowed(array) = self {
            let mut reader = array.data_start().clone();
            let vec = match <Vec<T> as Readable<'a, E>>::read_from(&mut reader, (array.len(), array.element_args())) {
                Ok(vec) => vec,
                Err(e) => {
                    return Err(e);
                },
            };
            *self = LazyArray::Owned(vec);
        }
        match self {
            LazyArray::Owned(vec) => Ok(vec),
            LazyArray::Borrowed(_) => vstd::pervasive::unreached(),
        }
    }
}

} // verus!
