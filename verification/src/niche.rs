//! Two-variant types encoded without a discriminant of their own.
//!
//! The absent variant, or the second of two arms, is told apart by a bit
//! pattern that the present variant never produces: the zero word where the
//! backend promises never to use it, else the highest spare bit.

use crate::align::is_power_of_two;
use crate::align::lemma_aligned_weaken;
use crate::align::lemma_power_of_two;
use crate::align::lemma_self_aligned;
use crate::align::lemma_spare_bit;
use crate::align::lemma_split_bit;
use crate::align::lemma_zero_aligned;
use crate::align::min;
use crate::align::spare_bit;
use crate::align::spec_min;
use crate::maybe_owned::MaybeOwned;
use crate::pointer::NonNull;
use crate::pointer::Pointer;
use crate::predicate::AlignedTo;
use core::ops::Deref;
use core::ops::DerefMut;
use vstd::prelude::*;

verus! {

/// An optional value of a backend that never produces the zero word: the
/// zero word stands for `None`.
impl<T: NonNull> Pointer for Option<T> {
    open spec fn valid() -> bool {
        T::valid()
    }

    open spec fn spec_non_null() -> bool {
        false
    }

    open spec fn spec_alignment() -> usize {
        T::spec_alignment()
    }

    open spec fn spec_clone_in_place() -> bool {
        T::spec_clone_in_place()
    }

    open spec fn valid_word(word: usize) -> bool {
        word == 0 || T::valid_word(word)
    }

    open spec fn decode(word: usize) -> Self {
        if word == 0 {
            None
        } else {
            Some(T::decode(word))
        }
    }

    proof fn lemma_alignment() {
        T::lemma_alignment();
    }

    proof fn lemma_word_aligned(word: usize) {
        if word == 0 {
            T::lemma_alignment();
            lemma_zero_aligned(T::spec_alignment());
        } else {
            T::lemma_word_aligned(word);
        }
    }

    proof fn lemma_word_non_null(word: usize) {
    }

    fn check() -> (b: bool) {
        T::check()
    }

    fn non_null() -> (b: bool) {
        false
    }

    fn alignment() -> (a: usize) {
        T::alignment()
    }

    fn clone_in_place() -> (b: bool) {
        T::clone_in_place()
    }

    fn into_ptr(value: Self) -> (word: usize)
        ensures
            word == 0 <==> value is None,
    {
        match value {
            Some(x) => {
                let word: usize = T::into_ptr(x);
                proof {
                    T::lemma_non_null();
                }
                word
            },
            None => {
                proof {
                    Self::lemma_word_aligned(0);
                    Self::lemma_word_non_null(0);
                }
                0
            },
        }
    }

    fn from_ptr(word: usize) -> (r: MaybeOwned<Self>) {
        if word == 0 {
            MaybeOwned::new(None)
        } else {
            MaybeOwned::new(Some(T::from_ptr(word).assume_owned()))
        }
    }

    fn as_ptr(value: &Self) -> (word: usize)
        ensures
            word == 0 <==> *value is None,
    {
        match value {
            Some(x) => {
                let word: usize = T::as_ptr(x);
                proof {
                    T::lemma_non_null();
                }
                word
            },
            None => {
                proof {
                    Self::lemma_word_aligned(0);
                    Self::lemma_word_non_null(0);
                }
                0
            },
        }
    }
}

/// The zero word stands for `None` and for nothing else: no present value is
/// encoded as it.
pub proof fn lemma_option_niche<T: NonNull>(word: usize)
    requires
        T::valid(),
        Option::<T>::valid_word(word),
    ensures
        word == 0 <==> Option::<T>::decode(word) is None,
        word != 0 ==> T::valid_word(word) && Option::<T>::decode(word) == Some(T::decode(word)),
        !T::valid_word(0),
{
    if T::valid_word(0) {
        T::lemma_non_null();
        T::lemma_word_non_null(0);
    }
}

/// The alignment that both arms of a `Result` share.
pub open spec fn arms_alignment<T: Pointer, E: Pointer>() -> usize {
    spec_min(T::spec_alignment(), E::spec_alignment())
}

/// What both arms of a valid `Result` backend have in common.
pub proof fn lemma_arms<T: Pointer, E: Pointer>()
    requires
        Result::<T, E>::valid(),
    ensures
        is_power_of_two(arms_alignment::<T, E>()),
        is_power_of_two(T::spec_alignment()),
        is_power_of_two(E::spec_alignment()),
        arms_alignment::<T, E>() >= 2,
        arms_alignment::<T, E>() <= T::spec_alignment(),
        arms_alignment::<T, E>() <= E::spec_alignment(),
        Result::<T, E>::spec_alignment() == spare_bit(arms_alignment::<T, E>()),
{
}

/// Either of two values, each with a backend of its own that leaves a bit
/// spare: the highest bit that both leave spare says which arm it is.
impl<T: Pointer, E: Pointer> Pointer for Result<T, E> {
    open spec fn valid() -> bool {
        &&& T::valid()
        &&& E::valid()
        &&& <T as AlignedTo<2>>::aligned()
        &&& <E as AlignedTo<2>>::aligned()
    }

    open spec fn spec_non_null() -> bool {
        T::spec_non_null()
    }

    open spec fn spec_alignment() -> usize {
        spec_min(T::spec_alignment(), E::spec_alignment()) >> 1u32
    }

    open spec fn spec_clone_in_place() -> bool {
        T::spec_clone_in_place() && E::spec_clone_in_place()
    }

    open spec fn valid_word(word: usize) -> bool {
        if word & Self::spec_alignment() == 0 {
            T::valid_word(word)
        } else {
            E::valid_word(word & !Self::spec_alignment())
        }
    }

    open spec fn decode(word: usize) -> Self {
        if word & Self::spec_alignment() == 0 {
            Ok(T::decode(word))
        } else {
            Err(E::decode(word & !Self::spec_alignment()))
        }
    }

    proof fn lemma_alignment() {
        lemma_arms::<T, E>();
        lemma_zero_aligned(arms_alignment::<T, E>());
        lemma_spare_bit(0, arms_alignment::<T, E>());
    }

    proof fn lemma_word_aligned(word: usize) {
        lemma_arms::<T, E>();
        let both = arms_alignment::<T, E>();
        let bit = Self::spec_alignment();
        if word & bit == 0 {
            T::lemma_word_aligned(word);
            lemma_aligned_weaken(word, T::spec_alignment(), both);
            lemma_spare_bit(word, both);
        } else {
            let base = word & !bit;
            E::lemma_word_aligned(base);
            lemma_aligned_weaken(base, E::spec_alignment(), both);
            lemma_spare_bit(base, both);
            lemma_split_bit(word, bit);
        }
    }

    proof fn lemma_word_non_null(word: usize) {
        let bit = Self::spec_alignment();
        if word & bit == 0 {
            T::lemma_word_non_null(word);
        } else {
            assert(word & bit != 0 ==> word != 0) by (bit_vector);
        }
    }

    fn check() -> (b: bool) {
        T::check() && E::check() && <T as AlignedTo<2>>::check_aligned() && <E as AlignedTo<
            2,
        >>::check_aligned()
    }

    fn non_null() -> (b: bool) {
        T::non_null()
    }

    fn alignment() -> (a: usize) {
        min(T::alignment(), E::alignment()) >> 1u32
    }

    fn clone_in_place() -> (b: bool) {
        T::clone_in_place() && E::clone_in_place()
    }

    fn into_ptr(value: Self) -> (word: usize) {
        proof {
            lemma_arms::<T, E>();
        }
        let (base, tag): (usize, usize) = match value {
            Ok(x) => {
                let base: usize = T::into_ptr(x);
                proof {
                    T::lemma_word_aligned(base);
                    lemma_aligned_weaken(base, T::spec_alignment(), arms_alignment::<T, E>());
                }
                (base, 0)
            },
            Err(x) => {
                let base: usize = E::into_ptr(x);
                proof {
                    E::lemma_word_aligned(base);
                    lemma_aligned_weaken(base, E::spec_alignment(), arms_alignment::<T, E>());
                }
                (base, Self::alignment())
            },
        };
        proof {
            lemma_spare_bit(base, arms_alignment::<T, E>());
            assert(base | 0 == base) by (bit_vector);
            Self::lemma_word_aligned(base | tag);
            Self::lemma_word_non_null(base | tag);
        }
        base | tag
    }

    fn from_ptr(word: usize) -> (r: MaybeOwned<Self>) {
        let bit: usize = Self::alignment();
        proof {
            lemma_arms::<T, E>();
            let both = arms_alignment::<T, E>();
            lemma_power_of_two(both);
            if word & bit == 0 {
                T::lemma_word_aligned(word);
                lemma_aligned_weaken(word, T::spec_alignment(), both);
                lemma_spare_bit(word, both);
            } else {
                let base = word & !bit;
                E::lemma_word_aligned(base);
                lemma_aligned_weaken(base, E::spec_alignment(), both);
                lemma_spare_bit(base, both);
                lemma_split_bit(word, bit);
            }
        }
        let tag: usize = word & bit;
        let base: usize = word & !((bit << 1u32) - 1);
        if tag == 0 {
            MaybeOwned::new(Ok(T::from_ptr(base).assume_owned()))
        } else {
            MaybeOwned::new(Err(E::from_ptr(base).assume_owned()))
        }
    }

    fn as_ptr(value: &Self) -> (word: usize) {
        proof {
            lemma_arms::<T, E>();
        }
        let (base, tag): (usize, usize) = match value {
            Ok(x) => {
                let base: usize = T::as_ptr(x);
                proof {
                    T::lemma_word_aligned(base);
                    lemma_aligned_weaken(base, T::spec_alignment(), arms_alignment::<T, E>());
                }
                (base, 0)
            },
            Err(x) => {
                let base: usize = E::as_ptr(x);
                proof {
                    E::lemma_word_aligned(base);
                    lemma_aligned_weaken(base, E::spec_alignment(), arms_alignment::<T, E>());
                }
                (base, Self::alignment())
            },
        };
        proof {
            lemma_spare_bit(base, arms_alignment::<T, E>());
            assert(base | 0 == base) by (bit_vector);
            Self::lemma_word_aligned(base | tag);
            Self::lemma_word_non_null(base | tag);
        }
        base | tag
    }
}

impl<T: NonNull, E: Pointer> NonNull for Result<T, E> {
    proof fn lemma_non_null() {
        T::lemma_non_null();
    }
}

/// The spare bit tells the arms apart: a word of the first arm has it clear,
/// a word of the second has it set, so no word stands for a value of each.
pub proof fn lemma_result_niche<T: Pointer, E: Pointer>(word: usize)
    requires
        Result::<T, E>::valid(),
        Result::<T, E>::valid_word(word),
    ensures
        word & Result::<T, E>::spec_alignment() == 0 <==> Result::<T, E>::decode(word) is Ok,
        T::valid_word(word) ==> word & Result::<T, E>::spec_alignment() == 0,
{
    if T::valid_word(word) {
        lemma_arms::<T, E>();
        T::lemma_word_aligned(word);
        lemma_aligned_weaken(word, T::spec_alignment(), arms_alignment::<T, E>());
        lemma_spare_bit(word, arms_alignment::<T, E>());
    }
}

/// Like [`Option`], but stays a backend when nested: the absent value is
/// encoded as the highest spare bit alone, whatever the backend does with
/// the zero word.
#[derive(Debug, Clone, Copy, PartialEq, Eq, PartialOrd, Ord, Hash)]
pub struct NestOption<T>(pub Option<T>);

impl<T> From<Option<T>> for NestOption<T> {
    fn from(value: Option<T>) -> (r: Self) {
        Self(value)
    }
}

impl<T> vstd::std_specs::convert::FromSpecImpl<Option<T>> for NestOption<T> {
    open spec fn obeys_from_spec() -> bool {
        true
    }

    open spec fn from_spec(value: Option<T>) -> Self {
        NestOption(value)
    }
}

impl<T> From<NestOption<T>> for Option<T> {
    fn from(value: NestOption<T>) -> (r: Self) {
        value.0
    }
}

impl<T> vstd::std_specs::convert::FromSpecImpl<NestOption<T>> for Option<T> {
    open spec fn obeys_from_spec() -> bool {
        true
    }

    open spec fn from_spec(value: NestOption<T>) -> Self {
        value.0
    }
}

impl<T> Deref for NestOption<T> {
    type Target = Option<T>;

    fn deref(&self) -> (r: &Option<T>)
        ensures
            *r == self.0,
    {
        &self.0
    }
}

impl<T> DerefMut for NestOption<T> {
    fn deref_mut(&mut self) -> (r: &mut Option<T>)
        ensures
            *r == old(self).0,
            final(self).0 == *final(r),
    {
        &mut self.0
    }
}

impl<T: Pointer> Pointer for NestOption<T> {
    open spec fn valid() -> bool {
        T::valid() && <T as AlignedTo<2>>::aligned()
    }

    open spec fn spec_non_null() -> bool {
        T::spec_non_null()
    }

    open spec fn spec_alignment() -> usize {
        T::spec_alignment() >> 1u32
    }

    open spec fn spec_clone_in_place() -> bool {
        T::spec_clone_in_place()
    }

    open spec fn valid_word(word: usize) -> bool {
        word == Self::spec_alignment() || T::valid_word(word)
    }

    open spec fn decode(word: usize) -> Self {
        if word == Self::spec_alignment() {
            NestOption(None)
        } else {
            NestOption(Some(T::decode(word)))
        }
    }

    proof fn lemma_alignment() {
        lemma_zero_aligned(T::spec_alignment());
        lemma_spare_bit(0, T::spec_alignment());
    }

    proof fn lemma_word_aligned(word: usize) {
        if word == Self::spec_alignment() {
            Self::lemma_alignment();
            lemma_self_aligned(word);
        } else {
            T::lemma_word_aligned(word);
            lemma_spare_bit(word, T::spec_alignment());
        }
    }

    proof fn lemma_word_non_null(word: usize) {
        if word == Self::spec_alignment() {
            lemma_zero_aligned(T::spec_alignment());
            lemma_spare_bit(0, T::spec_alignment());
        } else {
            T::lemma_word_non_null(word);
        }
    }

    fn check() -> (b: bool) {
        T::check() && <T as AlignedTo<2>>::check_aligned()
    }

    fn non_null() -> (b: bool) {
        T::non_null()
    }

    fn alignment() -> (a: usize) {
        T::alignment() >> 1u32
    }

    fn clone_in_place() -> (b: bool) {
        T::clone_in_place()
    }

    fn into_ptr(value: Self) -> (word: usize)
        ensures
            word == Self::spec_alignment() <==> value.0 is None,
    {
        match value.0 {
            Some(x) => {
                let word: usize = T::into_ptr(x);
                proof {
                    T::lemma_word_aligned(word);
                    lemma_spare_bit(word, T::spec_alignment());
                    lemma_absent_bit(word, T::spec_alignment());
                    Self::lemma_word_aligned(word);
                    Self::lemma_word_non_null(word);
                }
                word
            },
            None => {
                let word: usize = Self::alignment();
                proof {
                    Self::lemma_word_aligned(word);
                    Self::lemma_word_non_null(word);
                }
                word
            },
        }
    }

    fn from_ptr(word: usize) -> (r: MaybeOwned<Self>) {
        let bit: usize = Self::alignment();
        proof {
            lemma_power_of_two(T::spec_alignment());
            if word == bit {
                lemma_zero_aligned(T::spec_alignment());
                lemma_spare_bit(0, T::spec_alignment());
                assert(0usize | bit == bit) by (bit_vector);
            } else {
                T::lemma_word_aligned(word);
                lemma_spare_bit(word, T::spec_alignment());
            }
        }
        let tag: usize = word & bit;
        let base: usize = word & !((bit << 1u32) - 1);
        if tag == 0 {
            MaybeOwned::new(NestOption(Some(T::from_ptr(base).assume_owned())))
        } else {
            MaybeOwned::new(NestOption(None))
        }
    }

    fn as_ptr(value: &Self) -> (word: usize)
        ensures
            word == Self::spec_alignment() <==> value.0 is None,
    {
        match &value.0 {
            Some(x) => {
                let word: usize = T::as_ptr(x);
                proof {
                    T::lemma_word_aligned(word);
                    lemma_spare_bit(word, T::spec_alignment());
                    lemma_absent_bit(word, T::spec_alignment());
                    Self::lemma_word_aligned(word);
                    Self::lemma_word_non_null(word);
                }
                word
            },
            None => {
                let word: usize = Self::alignment();
                proof {
                    Self::lemma_word_aligned(word);
                    Self::lemma_word_non_null(word);
                }
                word
            },
        }
    }
}

/// A word with the spare bit clear is not the spare bit.
proof fn lemma_absent_bit(word: usize, alignment: usize)
    requires
        spare_bit(alignment) != 0,
        word & spare_bit(alignment) == 0,
    ensures
        word != spare_bit(alignment),
{
    let bit = spare_bit(alignment);
    assert(bit != 0 && word & bit == 0 ==> word != bit) by (bit_vector);
}

impl<T: NonNull> NonNull for NestOption<T> {
    proof fn lemma_non_null() {
        T::lemma_non_null();
    }
}

/// The spare bit alone stands for the absent value and for nothing else: no
/// present value is encoded as it.
pub proof fn lemma_nest_option_niche<T: Pointer>(word: usize)
    requires
        NestOption::<T>::valid(),
        NestOption::<T>::valid_word(word),
    ensures
        word == NestOption::<T>::spec_alignment() <==> NestOption::<T>::decode(word).0 is None,
        word != NestOption::<T>::spec_alignment() ==> T::valid_word(word) && NestOption::<T>::decode(
            word,
        ).0 == Some(T::decode(word)),
        !T::valid_word(NestOption::<T>::spec_alignment()),
{
    let bit = NestOption::<T>::spec_alignment();
    if T::valid_word(bit) {
        T::lemma_word_aligned(bit);
        lemma_spare_bit(bit, T::spec_alignment());
        lemma_absent_bit(bit, T::spec_alignment());
    }
}

} // verus!
