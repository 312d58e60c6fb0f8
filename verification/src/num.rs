//! Tags that are numbers below a bound.

use crate::align::bit_width;
use crate::align::is_aligned;
use crate::align::is_bit_width;
use crate::align::lemma_aligned_low_bits;
use crate::align::lemma_bit_width;
use crate::align::lemma_bit_width_bound;
use crate::align::lemma_log2_of_shift;
use crate::align::lemma_low_mask;
use crate::align::lemma_power_of_two;
use crate::align::lemma_shift_monotonic;
use crate::align::log2;
use crate::align::low_mask;
use crate::align::min;
use crate::align::next_power_of_two;
use crate::align::trailing_zeros;
use crate::maybe_owned::MaybeOwned;
use crate::pointer::NonNull;
use crate::pointer::Pointer;
use crate::predicate::Eval;
use crate::scalar::top_alignment;
use crate::scalar::top_bit;
use crate::tag::alignment_after;
use crate::tag::attach;
use crate::tag::base_of;
use crate::tag::detach;
use crate::tag::has_spare_bits;
use crate::tag::lemma_tagged_alignment;
use crate::tag::lemma_tagged_non_null;
use crate::tag::tag_in;
use crate::tag::tagged_alignment;
use crate::tag::tagged_word;
use core::marker::PhantomData;
use vstd::prelude::*;

verus! {

/// Unsigned integer, always less than `N`.
#[derive(Debug, Clone, Copy, PartialEq, Eq, PartialOrd, Ord, Hash)]
pub struct Num<const N: usize>(usize);

impl<const N: usize> View for Num<N> {
    type V = usize;

    closed spec fn view(&self) -> usize {
        self.0
    }
}

impl<const N: usize> Num<N> {
    #[verifier::type_invariant]
    spec fn in_range(self) -> bool {
        self.0 < N
    }

    /// The number `value` as a tag.
    pub closed spec fn of(value: usize) -> Self {
        Num(value)
    }

    /// A tag is its value, and nothing else.
    pub proof fn lemma_of(value: usize)
        ensures
            Self::of(value)@ == value,
            forall|n: Self| n@ == value ==> n == Self::of(value),
    {
    }

    /// The number of bits that a tag takes: enough to tell `N` values apart.
    pub open spec fn spec_width() -> u32 {
        bit_width(N)
    }

    /// The number of bits that a tag takes.
    #[verifier::when_used_as_spec(spec_width)]
    pub fn width() -> (b: u32)
        requires
            N <= top_bit(),
        ensures
            b == Self::spec_width(),
            b < usize::BITS,
    {
        trailing_zeros(next_power_of_two(N))
    }

    /// The low bits that a tag may have set.
    pub fn mask() -> (m: usize)
        requires
            N <= top_bit(),
        ensures
            m == low_mask(Self::spec_width()),
    {
        let p: usize = next_power_of_two(N);
        proof {
            lemma_power_of_two(p);
            lemma_low_mask(Self::spec_width());
        }
        p - 1
    }

    /// The tag `value`, if it is below `N`.
    pub fn new(value: usize) -> (r: Option<Self>)
        ensures
            value < N ==> r is Some && r->0@ == value,
            value >= N ==> r is None,
    {
        if value >= N {
            None
        } else {
            Some(Self(value))
        }
    }

    /// The tag `value`, or the largest tag where `value` is too large.
    pub fn new_saturating(value: usize) -> (r: Self)
        requires
            N >= 1,
        ensures
            r@ == if value < N { value } else { (N - 1) as usize },
    {
        Self(min(value, N - 1))
    }

    /// The tag that is `value` modulo `N`.
    pub fn new_wrapping(value: usize) -> (r: Self)
        requires
            N >= 1,
        ensures
            r@ == value % N,
    {
        Self(value % N)
    }

    /// The tag `value`, which the caller knows to be below `N`.
    pub fn new_unchecked(value: usize) -> (r: Self)
        requires
            value < N,
        ensures
            r@ == value,
    {
        Self(value)
    }

    /// The number held.
    pub fn value(self) -> (v: usize)
        ensures
            v == self@,
            v < N,
    {
        proof {
            use_type_invariant(&self);
        }
        self.0
    }

    /// How far a tag is shifted up when it is encoded on its own.
    fn ptr_shift() -> (s: u32)
        requires
            2 <= N <= top_bit(),
        ensures
            s == usize::BITS - Self::spec_width(),
            1 <= Self::spec_width() < usize::BITS,
    {
        proof {
            lemma_bit_width(N);
            assert(1usize << 0u32 == 1) by (bit_vector);
        }
        usize::BITS - Self::width()
    }
}

/// A number alone is encoded in the top bits of the word.
impl<const N: usize> Pointer for Num<N> {
    open spec fn valid() -> bool {
        2 <= N <= top_bit()
    }

    open spec fn spec_non_null() -> bool {
        false
    }

    open spec fn spec_alignment() -> usize {
        1usize << ((usize::BITS - Self::spec_width()) as u32)
    }

    open spec fn spec_clone_in_place() -> bool {
        true
    }

    open spec fn valid_word(word: usize) -> bool {
        &&& is_aligned(word, Self::spec_alignment())
        &&& word >> ((usize::BITS - Self::spec_width()) as u32) < N
    }

    open spec fn decode(word: usize) -> Self {
        Self::of(word >> ((usize::BITS - Self::spec_width()) as u32))
    }

    proof fn lemma_alignment() {
        lemma_bit_width(N);
        assert(1usize << 0u32 == 1) by (bit_vector);
        lemma_log2_of_shift((usize::BITS - Self::spec_width()) as u32);
    }

    proof fn lemma_word_aligned(word: usize) {
    }

    proof fn lemma_word_non_null(word: usize) {
    }

    fn check() -> (b: bool) {
        2 <= N && N <= top_alignment()
    }

    fn non_null() -> (b: bool) {
        false
    }

    fn alignment() -> (a: usize) {
        1usize << Self::ptr_shift()
    }

    fn clone_in_place() -> (b: bool) {
        true
    }

    fn into_ptr(value: Self) -> (word: usize)
        ensures
            word == value@ << ((usize::BITS - Self::spec_width()) as u32),
    {
        let v: usize = value.value();
        let s: u32 = Self::ptr_shift();
        proof {
            lemma_bit_width(N);
            assert((v << s) >> s == v && (v << s) & (((1usize << s) - 1) as usize) == 0) by (bit_vector)
                requires
                    0 < s < usize::BITS,
                    v <= !0usize >> s,
            ;
            lemma_aligned_low_bits(v << s, s);
        }
        v << s
    }

    fn from_ptr(word: usize) -> (r: MaybeOwned<Self>) {
        let s: u32 = Self::ptr_shift();
        MaybeOwned::new(Self::new_unchecked(word >> s))
    }

    fn as_ptr(value: &Self) -> (word: usize)
        ensures
            word == value@ << ((usize::BITS - Self::spec_width()) as u32),
    {
        Self::into_ptr(*value)
    }
}

/// The condition that `P` leaves enough low bits unused for a number below `N`.
pub struct CanFitNum<P, const N: usize>(PhantomData<P>);

impl<P: Pointer, const N: usize> Eval for CanFitNum<P, N> {
    open spec fn result() -> bool {
        P::spec_alignment() >= N
    }
}

impl<P: Pointer, const N: usize> CanFitNum<P, N> {
    /// Evaluates the condition.
    pub fn check() -> (b: bool)
        requires
            P::valid(),
        ensures
            b == Self::result(),
    {
        P::alignment() >= N
    }

    /// A backend that can fit the number has as many spare bits as the number takes.
    pub proof fn lemma_spare_bits()
        requires
            P::valid(),
            Self::result(),
        ensures
            has_spare_bits::<P>(bit_width(N)),
            is_bit_width(N, bit_width(N)),
            N <= top_bit(),
    {
        P::lemma_alignment();
        lemma_power_of_two(P::spec_alignment());
        lemma_bit_width_bound(N, log2(P::spec_alignment()));
        lemma_shift_monotonic(log2(P::spec_alignment()), (usize::BITS - 1) as u32);
    }
}

/// A value of `P` with a number below `N` in the highest spare bits of its word.
impl<P: Pointer, const N: usize> Pointer for (P, Num<N>) {
    open spec fn valid() -> bool {
        P::valid() && CanFitNum::<P, N>::result()
    }

    open spec fn spec_non_null() -> bool {
        P::spec_non_null()
    }

    open spec fn spec_alignment() -> usize {
        tagged_alignment::<P>(bit_width(N))
    }

    open spec fn spec_clone_in_place() -> bool {
        P::spec_clone_in_place()
    }

    open spec fn valid_word(word: usize) -> bool {
        tagged_word::<P>(word, bit_width(N)) && tag_in::<P>(word, bit_width(N)) < N
    }

    open spec fn decode(word: usize) -> Self {
        (P::decode(base_of::<P>(word)), Num::of(tag_in::<P>(word, bit_width(N))))
    }

    proof fn lemma_alignment() {
        CanFitNum::<P, N>::lemma_spare_bits();
        lemma_tagged_alignment::<P>(bit_width(N));
    }

    proof fn lemma_word_aligned(word: usize) {
    }

    proof fn lemma_word_non_null(word: usize) {
        CanFitNum::<P, N>::lemma_spare_bits();
        lemma_tagged_non_null::<P>(word, bit_width(N));
    }

    fn check() -> (b: bool) {
        P::check() && CanFitNum::<P, N>::check()
    }

    fn non_null() -> (b: bool) {
        P::non_null()
    }

    fn alignment() -> (a: usize) {
        proof {
            CanFitNum::<P, N>::lemma_spare_bits();
        }
        alignment_after::<P>(Num::<N>::width())
    }

    fn clone_in_place() -> (b: bool) {
        P::clone_in_place()
    }

    fn into_ptr(value: Self) -> (word: usize) {
        proof {
            CanFitNum::<P, N>::lemma_spare_bits();
            lemma_bit_width(N);
        }
        let tag: usize = value.1.value();
        let base: usize = P::into_ptr(value.0);
        let word: usize = attach::<P>(base, tag, Num::<N>::width());
        proof {
            Self::lemma_word_aligned(word);
            Self::lemma_word_non_null(word);
        }
        word
    }

    fn from_ptr(word: usize) -> (r: MaybeOwned<Self>) {
        proof {
            CanFitNum::<P, N>::lemma_spare_bits();
        }
        let parts: (usize, usize) = detach::<P>(word, Num::<N>::width());
        let tag: Num<N> = Num::new_unchecked(parts.1 & Num::<N>::mask());
        MaybeOwned::new((P::from_ptr(parts.0).assume_owned(), tag))
    }

    fn as_ptr(value: &Self) -> (word: usize) {
        proof {
            CanFitNum::<P, N>::lemma_spare_bits();
            lemma_bit_width(N);
        }
        let tag: usize = value.1.value();
        let base: usize = P::as_ptr(&value.0);
        let word: usize = attach::<P>(base, tag, Num::<N>::width());
        proof {
            Self::lemma_word_aligned(word);
            Self::lemma_word_non_null(word);
        }
        word
    }
}

impl<P: NonNull, const N: usize> NonNull for (P, Num<N>) {
    proof fn lemma_non_null() {
        P::lemma_non_null();
    }
}

} // verus!
