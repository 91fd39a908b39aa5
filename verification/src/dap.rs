//! An array written item by item from a list of items.
use vstd::prelude::*;
use crate::array::{spec_sizes, RoArray};
use crate::endian::Endianness;
use crate::lazy_array::LazyArray;
use crate::reader::{Readable, ReadError};
use crate::writer::{VecWriter, Writable};

verus! {

/// A list of items written one after the other, with nothing between them;
/// its size is the sum of the items' sizes.
pub struct Dap<T> {
    items: Vec<T>,
}

impl<T: DeepView> DeepView for Dap<T> {
    type V = Seq<T::V>;

    closed spec fn deep_view(&self) -> Seq<T::V> {
        self.items.deep_view()
    }
}

impl<T: DeepView> Dap<T> {
    /// The items to write.
    pub fn new(items: Vec<T>) -> (r: Dap<T>)
        ensures
            r.deep_view() == items.deep_view(),
    {
        Dap { items }
    }
}

impl<T: DeepView> Dap<T> {
    /// The size of the items together: the sum of their sizes, where it fits.
    pub fn size<'a, E: Endianness>(&self) -> (r: Result<usize, ReadError>)
        where
            T: Readable<'a, E>,
            T::Args: Copy,
        ensures
            r matches Ok(s) ==> s == spec_sizes::<'a, E, T>(self.deep_view()),
            r is Err ==> spec_sizes::<'a, E, T>(self.deep_view()) > usize::MAX,
    {
        <Vec<T> as Readable<'a, E>>::size(&self.items)
    }
}

impl<E: Endianness, T: Writable<E>> Writable<E> for Dap<T> {
    open spec fn spec_write(v: Seq<<T as DeepView>::V>) -> Seq<u8> {
        <Vec<T> as Writable<E>>::spec_write(v)
    }

    fn write_to(&self, writer: &mut VecWriter<E>) -> (r: u64) {
        self.items.write_to(writer)
    }
}

/// A collection that can be made from an iterator of its items: the type of
/// those items.
pub trait DerivableFromIterator {
    type Item;
}

impl<T> DerivableFromIterator for Vec<T> {
    type Item = T;
}

impl<'a, E: Endianness, T: Readable<'a, E>> DerivableFromIterator for LazyArray<'a, E, T> {
    type Item = T;
}

impl<'a, E: Endianness, T: Readable<'a, E>> DerivableFromIterator for RoArray<'a, E, T> {
    type Item = T;
}

} // verus!
