//! The codec contract: how a value becomes a word and comes back.

use crate::align::is_aligned;
use crate::align::is_power_of_two;
use crate::maybe_owned::MaybeOwned;
use core::mem::ManuallyDrop;
use core::ops::Deref;
use vstd::prelude::*;

verus! {

/// Conversion to and from a single machine word.
///
/// A backend states three static properties (whether its words are never
/// zero, the alignment of its words, and whether a value can be duplicated
/// through a borrowed view alone) and a model of its encoding: which words
/// it produces ([`Pointer::valid_word`]) and what each of them stands for
/// ([`Pointer::decode`]).
///
/// Some backends are defined only for part of their parameters (a tag must
/// fit into the spare bits of what it is attached to); [`Pointer::valid`]
/// says for which. Every executable method asks for it.
pub trait Pointer: Sized {
    /// Whether this backend is defined at all for its parameters.
    spec fn valid() -> bool;

    /// Whether no value is ever encoded as the zero word.
    spec fn spec_non_null() -> bool;

    /// The alignment that every encoded word is a multiple of.
    spec fn spec_alignment() -> usize;

    /// Whether a borrowed view suffices to duplicate a value.
    spec fn spec_clone_in_place() -> bool;

    /// Whether `word` is the encoding of some value.
    spec fn valid_word(word: usize) -> bool;

    /// The value that `word` stands for, where `word` is valid.
    spec fn decode(word: usize) -> Self;

    /// The alignment is a power of two.
    proof fn lemma_alignment()
        requires
            Self::valid(),
        ensures
            is_power_of_two(Self::spec_alignment()),
    ;

    /// Every encoded word is a multiple of the alignment.
    proof fn lemma_word_aligned(word: usize)
        requires
            Self::valid(),
            Self::valid_word(word),
        ensures
            is_aligned(word, Self::spec_alignment()),
    ;

    /// Where the backend promises non-null words, no encoded word is zero.
    proof fn lemma_word_non_null(word: usize)
        requires
            Self::valid(),
            Self::valid_word(word),
        ensures
            Self::spec_non_null() ==> word != 0,
    ;

    /// Whether this backend is defined for its parameters.
    #[verifier::when_used_as_spec(valid)]
    fn check() -> (b: bool)
        ensures
            b == Self::valid(),
    ;

    /// Whether no value is ever encoded as the zero word.
    #[verifier::when_used_as_spec(spec_non_null)]
    fn non_null() -> (b: bool)
        ensures
            b == Self::spec_non_null(),
    ;

    /// The alignment that every encoded word is a multiple of.
    #[verifier::when_used_as_spec(spec_alignment)]
    fn alignment() -> (a: usize)
        requires
            Self::valid(),
        ensures
            a == Self::spec_alignment(),
    ;

    /// Whether a borrowed view suffices to duplicate a value.
    #[verifier::when_used_as_spec(spec_clone_in_place)]
    fn clone_in_place() -> (b: bool)
        ensures
            b == Self::spec_clone_in_place(),
    ;

    /// Encodes `value`, giving up ownership of it to the word.
    fn into_ptr(value: Self) -> (word: usize)
        requires
            Self::valid(),
        ensures
            Self::valid_word(word),
            Self::decode(word) == value,
            is_aligned(word, Self::spec_alignment()),
            Self::spec_non_null() ==> word != 0,
    ;

    /// Decodes `word` without asserting ownership of what it stands for.
    fn from_ptr(word: usize) -> (r: MaybeOwned<Self>)
        requires
            Self::valid(),
            Self::valid_word(word),
        ensures
            r@ == Self::decode(word),
    ;

    /// The word that `value` is encoded as, leaving `value` with its owner.
    fn as_ptr(value: &Self) -> (word: usize)
        requires
            Self::valid(),
        ensures
            Self::valid_word(word),
            Self::decode(word) == *value,
            is_aligned(word, Self::spec_alignment()),
            Self::spec_non_null() ==> word != 0,
    ;
}

/// What holds of every word that a backend produces: it is a multiple of the
/// alignment, and not zero where the backend promises so.
pub proof fn lemma_encoded<P: Pointer>(word: usize)
    requires
        P::valid(),
        P::valid_word(word),
    ensures
        is_aligned(word, P::spec_alignment()),
        P::spec_non_null() ==> word != 0,
{
    P::lemma_word_aligned(word);
    P::lemma_word_non_null(word);
}

/// Whether `value` is what some word of `P` stands for.
pub open spec fn is_encoded<P: Pointer>(value: P) -> bool {
    exists|word: usize| P::valid_word(word) && #[trigger] P::decode(word) == value
}

/// Backends whose words are never zero.
pub trait NonNull: Pointer {
    /// The backend promises non-null words.
    proof fn lemma_non_null()
        requires
            Self::valid(),
        ensures
            Self::spec_non_null(),
    ;
}

/// Backends that can mint a further live value from a borrowed view.
pub trait CloneInPlace: Pointer + Clone {
    /// Mints one more live value beside `value`, and lets go of it.
    fn clone_in_place(value: &Self)
        requires
            Self::spec_clone_in_place(),
    {
        let _extra = ManuallyDrop::new(value.clone());
    }

    /// A further live value of what `word` stands for.
    fn clone_from_ptr(word: usize) -> (r: Self)
        requires
            Self::valid(),
            Self::spec_clone_in_place(),
            Self::valid_word(word),
        ensures
            cloned(Self::decode(word), r),
    {
        let view = Self::from_ptr(word);
        view.deref().clone()
    }

    /// Mints one more live value of what `word` stands for, and lets go of it.
    fn clone_by_ptr(word: usize)
        requires
            Self::valid(),
            Self::spec_clone_in_place(),
            Self::valid_word(word),
    {
        let _extra = ManuallyDrop::new(Self::clone_from_ptr(word));
    }

    /// Destroys one live value of what `word` stands for.
    fn drop_one(word: usize)
        requires
            Self::valid(),
            Self::spec_clone_in_place(),
            Self::valid_word(word),
    {
        let _owned = Self::from_ptr(word).assume_owned();
    }
}

impl<T: Pointer + Clone> CloneInPlace for T {
}

} // verus!
