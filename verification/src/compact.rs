//! A value kept as the single word it is encoded as.

use crate::maybe_owned::MaybeOwned;
use crate::pointer::Pointer;
use core::marker::PhantomData;
use core::mem::ManuallyDrop;
use core::ops::Deref;
use core::ops::DerefMut;
use vstd::prelude::*;

verus! {

/// `ManuallyDrop::deref_mut`: borrows the value inside `slot` to be changed.
/// What the value is when that borrow ends is what `slot` then holds.
#[verifier::external_body]
fn inner_mut<T>(slot: &mut ManuallyDrop<T>) -> (r: &mut T)
    ensures
        *r == old(slot)@,
        final(slot)@ == *final(r),
{
    slot.deref_mut()
}

/// An owning box that is one word wide, whatever `P` is.
///
/// The box owns the value that its word stands for. The value is released by
/// taking it out with [`Compact::into_inner`]; a box that is merely dropped
/// lets go of the word without destroying what it stands for.
pub struct Compact<P: Pointer> {
    word: usize,
    marker: PhantomData<P>,
}

impl<P: Pointer> View for Compact<P> {
    type V = P;

    closed spec fn view(&self) -> P {
        P::decode(self.word)
    }
}

impl<P: Pointer> Compact<P> {
    #[verifier::type_invariant]
    spec fn well_formed(self) -> bool {
        P::valid() && P::valid_word(self.word)
    }

    /// A box that holds `value`.
    pub fn new(value: P) -> (r: Self)
        requires
            P::valid(),
        ensures
            r@ == value,
    {
        Self { word: P::into_ptr(value), marker: PhantomData }
    }

    /// Takes the value out, consuming the box.
    pub fn into_inner(self) -> (r: P)
        ensures
            r == self@,
    {
        proof {
            use_type_invariant(&self);
        }
        P::from_ptr(self.word).assume_owned()
    }

    /// A view of the value that leaves it in the box.
    pub fn get_ref(&self) -> (r: Ref<'_, P>)
        ensures
            r@ == self@,
    {
        proof {
            use_type_invariant(self);
        }
        Ref { value: P::from_ptr(self.word), marker: PhantomData }
    }

    /// A handle through which the value can be changed.
    ///
    /// The box keeps its word while the handle lives. What the handle holds
    /// is encoded and written back by [`RefMut::release`], and only then.
    pub fn get_mut(&mut self) -> (r: RefMut<'_, P>)
        ensures
            r@ == old(self)@,
            *r.target() == *old(self),
            *final(self) == *final(r.target()),
    {
        proof {
            use_type_invariant(&*self);
        }
        let value: P = P::from_ptr(self.word).assume_owned();
        RefMut { value: ManuallyDrop::new(value), owner: self }
    }
}

impl<P: Pointer + Clone> Clone for Compact<P> {
    /// A box of its own that holds a clone of the value; this box is left as it was.
    fn clone(&self) -> (r: Self)
        ensures
            cloned(self@, r@),
    {
        proof {
            use_type_invariant(self);
        }
        let value: MaybeOwned<P> = P::from_ptr(self.word);
        Compact::new(value.deref().clone())
    }
}

/// A view of the value in a [`Compact`], which stays where it is.
pub struct Ref<'a, P: Pointer> {
    value: MaybeOwned<P>,
    marker: PhantomData<&'a P>,
}

impl<'a, P: Pointer> View for Ref<'a, P> {
    type V = P;

    closed spec fn view(&self) -> P {
        self.value@
    }
}

impl<'a, P: Pointer> Ref<'a, P> {
    /// The value, borrowed.
    pub fn borrow(&self) -> (r: &P)
        ensures
            *r == self@,
    {
        self.value.borrow()
    }
}

impl<'a, P: Pointer> Deref for Ref<'a, P> {
    type Target = P;

    fn deref(&self) -> (r: &P)
        ensures
            *r == self@,
    {
        self.value.borrow()
    }
}

/// The value of a [`Compact`], taken out to be changed and put back.
#[must_use]
pub struct RefMut<'a, P: Pointer> {
    value: ManuallyDrop<P>,
    owner: &'a mut Compact<P>,
}

impl<'a, P: Pointer> View for RefMut<'a, P> {
    type V = P;

    closed spec fn view(&self) -> P {
        self.value@
    }
}

impl<'a, P: Pointer> RefMut<'a, P> {
    /// The box that the value goes back to.
    pub closed spec fn target(self) -> &'a mut Compact<P> {
        self.owner
    }

    /// The value, borrowed.
    pub fn borrow(&self) -> (r: &P)
        ensures
            *r == self@,
    {
        self.value.deref()
    }

    /// The value, borrowed to be changed in place.
    pub fn borrow_mut(&mut self) -> (r: &mut P)
        ensures
            *r == old(self)@,
            final(self)@ == *final(r),
            final(self).target() == old(self).target(),
    {
        inner_mut(&mut self.value)
    }

    /// Puts `value` in place of what the handle holds, and hands that out.
    pub fn set(&mut self, value: P) -> (previous: P)
        ensures
            previous == old(self)@,
            final(self)@ == value,
            final(self).target() == old(self).target(),
    {
        let mut other: ManuallyDrop<P> = ManuallyDrop::new(value);
        core::mem::swap(&mut self.value, &mut other);
        ManuallyDrop::into_inner(other)
    }

    /// Encodes what the handle holds and writes it back into the box.
    pub fn release(self)
        ensures
            final(self.target())@ == self@,
    {
        let RefMut { value, owner } = self;
        proof {
            use_type_invariant(&*owner);
        }
        owner.word = P::into_ptr(ManuallyDrop::into_inner(value));
    }
}

impl<'a, P: Pointer> Deref for RefMut<'a, P> {
    type Target = P;

    fn deref(&self) -> (r: &P)
        ensures
            *r == self@,
    {
        self.value.deref()
    }
}

impl<'a, P: Pointer> DerefMut for RefMut<'a, P> {
    fn deref_mut(&mut self) -> (r: &mut P)
        ensures
            *r == old(self)@,
            final(self)@ == *final(r),
            final(self).target() == old(self).target(),
    {
        inner_mut(&mut self.value)
    }
}

} // verus!
