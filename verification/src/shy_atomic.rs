//! A slot for one word that can be exchanged atomically, and never just read.

use crate::pointer::is_encoded;
use crate::pointer::Pointer;
use core::marker::PhantomData;
use core::sync::atomic::AtomicUsize;
use core::sync::atomic::Ordering;
use vstd::prelude::*;

verus! {

/// An atomic slot that always holds one value, and cannot be observed
/// without being changed: to get the current value, a new one is supplied.
///
/// There is no plain load. A view of the current value could be destroyed
/// underneath its holder by an exchange on another thread; an exchange
/// hands the old value over for good.
///
/// The value that the slot holds last is taken out with
/// [`ShyAtomic::into_inner`]; a slot that is merely dropped lets go of its
/// word without destroying what it stands for.
///
/// What a slot holds changes behind shared references, so it is no function
/// of the slot. What the slot was made with is: [`ShyAtomic::initial`].
pub struct ShyAtomic<P: Pointer> {
    cell: AtomicUsize,
    first: Ghost<usize>,
    marker: PhantomData<P>,
}

/// `AtomicUsize::swap`, acquire-release: puts `word` into the slot and
/// returns the word that was there.
///
/// A slot only ever holds words that were handed to it, when it was made or
/// by an exchange, and each of those is a word of `P`. The contract claims
/// that of the word that comes back.
#[verifier::external_body]
fn exchange<P: Pointer>(slot: &ShyAtomic<P>, word: usize) -> (previous: usize)
    requires
        P::valid_word(word),
    ensures
        P::valid_word(previous),
{
    slot.cell.swap(word, Ordering::AcqRel)
}

/// `AtomicUsize::compare_exchange`, acquire-release where it succeeds and
/// relaxed where it fails: puts `word` into the slot if the slot holds
/// `expected`.
///
/// On success the word that was there comes back, and it is `expected`; it is
/// a word of `P`, like every word the slot ever holds. On failure the slot is
/// unchanged, and nothing is claimed of the word that comes back.
#[verifier::external_body]
fn exchange_if<P: Pointer>(slot: &ShyAtomic<P>, expected: usize, word: usize) -> (r: Result<
    usize,
    usize,
>)
    requires
        P::valid_word(word),
    ensures
        r matches Ok(previous) ==> previous == expected && P::valid_word(previous),
{
    slot.cell.compare_exchange(expected, word, Ordering::AcqRel, Ordering::Relaxed)
}

/// `AtomicUsize::into_inner`: the word that the slot holds, which is a word
/// of `P`, like every word the slot ever holds.
#[verifier::external_body]
fn take<P: Pointer>(slot: ShyAtomic<P>) -> (word: usize)
    ensures
        P::valid_word(word),
{
    slot.cell.into_inner()
}

impl<P: Pointer> ShyAtomic<P> {
    #[verifier::type_invariant]
    spec fn well_formed(self) -> bool {
        P::valid() && P::valid_word(self.first@)
    }

    /// The word that the slot was made with.
    pub closed spec fn initial_word(self) -> usize {
        self.first@
    }

    /// The value that the slot was made with.
    pub open spec fn initial(self) -> P {
        P::decode(self.initial_word())
    }

    /// A slot that holds `value`: it is made with the word that `value` is
    /// encoded as.
    pub fn new(value: P) -> (r: Self)
        requires
            P::valid(),
        ensures
            P::valid_word(r.initial_word()),
            r.initial() == value,
    {
        let word: usize = P::into_ptr(value);
        Self { cell: AtomicUsize::new(word), first: Ghost(word), marker: PhantomData }
    }

    /// Puts `value` into the slot and destroys the value that was there.
    pub fn store(&self, value: P) {
        let _previous = self.swap(value);
    }

    /// Puts `value` into the slot and hands out the value that was there.
    pub fn swap(&self, value: P) -> (previous: P)
        ensures
            is_encoded(previous),
    {
        proof {
            use_type_invariant(self);
        }
        let word: usize = P::into_ptr(value);
        let previous: usize = exchange(self, word);
        P::from_ptr(previous).assume_owned()
    }

    /// Puts `new` into the slot if the slot holds the very word that
    /// `expected` is encoded with, and hands out the value that was there.
    ///
    /// Where the slot holds another word, nothing is changed, and `new` comes
    /// back: not the value in the slot.
    pub fn compare_exchange(&self, expected: &P, new: P) -> (r: Result<P, P>)
        ensures
            r matches Ok(previous) ==> previous == *expected,
            r matches Err(rejected) ==> rejected == new,
    {
        proof {
            use_type_invariant(self);
        }
        let current: usize = P::as_ptr(expected);
        let word: usize = P::into_ptr(new);
        Self::settle(exchange_if(self, current, word), word)
    }

    /// What a compare-exchange hands out, given how the exchange of words
    /// came out: the value that was in the slot where `word` went in, and
    /// else the value that `word` itself stands for.
    pub fn settle(outcome: Result<usize, usize>, word: usize) -> (r: Result<P, P>)
        requires
            P::valid(),
            P::valid_word(word),
            outcome matches Ok(previous) ==> P::valid_word(previous),
        ensures
            r == match outcome {
                Ok(previous) => Ok::<P, P>(P::decode(previous)),
                Err(_) => Err::<P, P>(P::decode(word)),
            },
    {
        match outcome {
            Ok(previous) => Ok(P::from_ptr(previous).assume_owned()),
            Err(_) => Err(P::from_ptr(word).assume_owned()),
        }
    }

    /// Takes the value out, consuming the slot.
    pub fn into_inner(self) -> (r: P)
        ensures
            is_encoded(r),
    {
        proof {
            use_type_invariant(&self);
        }
        let word: usize = take(self);
        P::from_ptr(word).assume_owned()
    }
}

} // verus!
