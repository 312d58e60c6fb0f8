//! A decoded value that may or may not own what it refers to.

use core::mem::ManuallyDrop;
use core::ops::Deref;
use vstd::prelude::*;

verus! {

/// A value whose destructor does not run when the wrapper goes away.
///
/// Decoding a word yields one of these: looking at the value through it leaves
/// the word's owner untouched, and only [`MaybeOwned::assume_owned`] hands
/// out a value that will be destroyed like any other.
#[derive(Debug, Default, PartialEq, Eq, PartialOrd, Ord, Hash)]
pub struct MaybeOwned<T>(ManuallyDrop<T>);

impl<T> View for MaybeOwned<T> {
    type V = T;

    closed spec fn view(&self) -> T {
        self.0@
    }
}

impl<T> MaybeOwned<T> {
    /// Wraps `x` without taking responsibility for destroying it.
    pub fn new(x: T) -> (r: Self)
        ensures
            r@ == x,
    {
        Self(ManuallyDrop::new(x))
    }

    /// Asserts ownership: the value handed out is destroyed like any other.
    ///
    /// The caller answers for doing this at most once per encoded word.
    pub fn assume_owned(self) -> (r: T)
        ensures
            r == self@,
    {
        ManuallyDrop::into_inner(self.0)
    }

    /// Asserts ownership, applies `f`, and wraps the outcome again.
    pub fn map<U, F: FnOnce(T) -> U>(self, f: F) -> (r: MaybeOwned<U>)
        requires
            f.requires((self@,)),
        ensures
            f.ensures((self@,), r@),
    {
        MaybeOwned::new(f(self.assume_owned()))
    }

    /// The value, borrowed.
    pub fn borrow(&self) -> (r: &T)
        ensures
            *r == self@,
    {
        self.0.deref()
    }
}

impl<T> Deref for MaybeOwned<T> {
    type Target = T;

    fn deref(&self) -> (r: &T)
        ensures
            *r == self@,
    {
        self.0.deref()
    }
}

} // verus!
