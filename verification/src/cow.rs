//! Values that are either borrowed or owned.
use vstd::prelude::*;

verus! {

/// A value that is either borrowed or owned; it is turned into an owned one
/// by cloning a borrowed one.
pub enum LCow<'r, T> {
    Borrowed(&'r T),
    Owned(T),
}

impl<'r, T> LCow<'r, T> {
    /// The value, borrowed or owned.
    pub open spec fn value(&self) -> T {
        match self {
            LCow::Borrowed(t) => **t,
            LCow::Owned(t) => *t,
        }
    }

    /// The value, by reference.
    pub fn get(&self) -> (r: &T)
        ensures
            *r == self.value(),
    {
        match self {
            LCow::Borrowed(t) => t,
            LCow::Owned(t) => t,
        }
    }
}

impl<'r, T: Clone> LCow<'r, T> {
    /// The value as an owned one: a clone of a borrowed value, or the owned
    /// value itself.
    pub fn into_owned(self) -> (r: T)
        ensures
            match self {
                LCow::Borrowed(t) => cloned(*t, r),
                LCow::Owned(t) => r == t,
            },
    {
        match self {
            LCow::Borrowed(t) => t.clone(),
            LCow::Owned(t) => t,
        }
    }
}

/// An immutable value that is either borrowed or owned.
pub struct ImmCow<'a, T> {
    inner: LCow<'a, T>,
}

impl<'a, T> ImmCow<'a, T> {
    /// Whether the value is borrowed.
    pub closed spec fn is_borrowed(&self) -> bool {
        self.inner is Borrowed
    }

    /// The value, borrowed or owned.
    pub closed spec fn value(&self) -> T {
        self.inner.value()
    }

    /// An owned value.
    pub fn new_owned(t: T) -> (r: ImmCow<'a, T>)
        ensures
            !r.is_borrowed(),
            r.value() == t,
    {
        ImmCow { inner: LCow::Owned(t) }
    }

    /// A borrowed value.
    pub fn new_borrowed(t: &'a T) -> (r: ImmCow<'a, T>)
        ensures
            r.is_borrowed(),
            r.value() == *t,
    {
        ImmCow { inner: LCow::Borrowed(t) }
    }

    /// The borrowed value, where it is borrowed.
    pub fn try_get_borrowed(&self) -> (r: Option<&'a T>)
        ensures
            r is Some <==> self.is_borrowed(),
            r matches Some(t) ==> *t == self.value(),
    {
        match &self.inner {
            LCow::Borrowed(t) => Some(*t),
            LCow::Owned(_) => None,
        }
    }

    /// The value, by reference.
    pub fn get(&self) -> (r: &T)
        ensures
            *r == self.value(),
    {
        self.inner.get()
    }
}

} // verus!
