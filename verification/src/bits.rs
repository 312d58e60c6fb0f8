//! Tags of a fixed width in bits.

use crate::align::is_aligned;
use crate::align::lemma_aligned_low_bits;
use crate::align::lemma_log2_of_shift;
use crate::align::low_mask;
use crate::tag::alignment_after;
use crate::tag::attach;
use crate::tag::base_of;
use crate::tag::detach;
use crate::tag::lemma_tagged_alignment;
use crate::tag::lemma_tagged_non_null;
use crate::tag::tag_in;
use crate::tag::tagged_alignment;
use crate::tag::tagged_word;
use crate::maybe_owned::MaybeOwned;
use crate::pointer::NonNull;
use crate::pointer::Pointer;
use core::marker::PhantomData;
use crate::predicate::Eval;
use vstd::prelude::*;

verus! {

/// The condition that a word has at least `N` bits.
pub struct FitsInUsize<const N: u32>;

impl<const N: u32> Eval for FitsInUsize<N> {
    open spec fn result() -> bool {
        N <= usize::BITS
    }
}

impl<const N: u32> FitsInUsize<N> {
    /// Evaluates the condition.
    pub fn check() -> (b: bool)
        ensures
            b == Self::result(),
    {
        N <= usize::BITS
    }
}

/// Unsigned integers at most `N` bits long.
#[derive(Debug, Clone, Copy, PartialEq, Eq, PartialOrd, Ord, Hash)]
pub struct Bits<const N: u32>(usize);

impl<const N: u32> View for Bits<N> {
    type V = usize;

    closed spec fn view(&self) -> usize {
        self.0
    }
}

impl<const N: u32> Bits<N> {
    #[verifier::type_invariant]
    spec fn in_range(self) -> bool {
        N <= usize::BITS && self.0 <= low_mask(N)
    }

    /// The tag that holds `value`.
    pub closed spec fn of(value: usize) -> Self {
        Bits(value)
    }

    /// A tag is its value, and nothing else.
    pub proof fn lemma_of(value: usize)
        ensures
            Self::of(value)@ == value,
            forall|b: Self| b@ == value ==> b == Self::of(value),
    {
    }

    /// The `N` low bits set.
    pub fn mask() -> (m: usize)
        requires
            FitsInUsize::<N>::result(),
        ensures
            m == low_mask(N),
    {
        if N == 0 {
            0
        } else {
            !0usize >> (usize::BITS - N)
        }
    }

    /// The tag that holds `value`, if `value` has no bit set beyond the `N` low ones.
    pub fn new(value: usize) -> (r: Option<Self>)
        requires
            FitsInUsize::<N>::result(),
        ensures
            value <= low_mask(N) ==> r is Some && r->0@ == value,
            value > low_mask(N) ==> r is None,
    {
        let mask: usize = Self::mask();
        proof {
            lemma_mask_keeps(value, N);
        }
        if value & mask != value {
            None
        } else {
            Some(Self(value))
        }
    }

    /// The tag that holds the `N` low bits of `value`.
    pub fn new_masked(value: usize) -> (r: Self)
        requires
            FitsInUsize::<N>::result(),
        ensures
            r@ == value & low_mask(N),
    {
        let mask: usize = Self::mask();
        proof {
            lemma_mask_keeps(value, N);
        }
        Self(value & mask)
    }

    /// The value held.
    pub fn value(self) -> (v: usize)
        ensures
            v == self@,
            v <= low_mask(N),
    {
        proof {
            use_type_invariant(&self);
        }
        self.0
    }

    /// How far a tag is shifted up when it is encoded on its own.
    fn ptr_shift() -> (s: u32)
        requires
            1 <= N <= usize::BITS,
        ensures
            s == usize::BITS - N,
    {
        usize::BITS - N
    }
}

/// Masking by the `n` low bits leaves exactly the values up to the mask alone.
proof fn lemma_mask_keeps(value: usize, n: u32)
    requires
        n <= usize::BITS,
    ensures
        value & low_mask(n) <= low_mask(n),
        value & low_mask(n) == value <==> value <= low_mask(n),
{
    if n == 0 {
        assert(value & 0 == 0) by (bit_vector);
    } else {
        let s = (usize::BITS - n) as u32;
        assert(value & (!0usize >> s) <= (!0usize >> s) && (value & (!0usize >> s) == value
            <==> value <= (!0usize >> s))) by (bit_vector)
            requires
                s < usize::BITS,
        ;
    }
}

/// A tag alone is encoded in the top `N` bits of the word.
impl<const N: u32> Pointer for Bits<N> {
    open spec fn valid() -> bool {
        N >= 1 && FitsInUsize::<N>::result()
    }

    open spec fn spec_non_null() -> bool {
        false
    }

    open spec fn spec_alignment() -> usize {
        1usize << ((usize::BITS - N) as u32)
    }

    open spec fn spec_clone_in_place() -> bool {
        true
    }

    open spec fn valid_word(word: usize) -> bool {
        is_aligned(word, Self::spec_alignment())
    }

    open spec fn decode(word: usize) -> Self {
        Self::of(word >> ((usize::BITS - N) as u32))
    }

    proof fn lemma_alignment() {
        lemma_log2_of_shift((usize::BITS - N) as u32);
    }

    proof fn lemma_word_aligned(word: usize) {
    }

    proof fn lemma_word_non_null(word: usize) {
    }

    fn check() -> (b: bool) {
        N >= 1 && FitsInUsize::<N>::check()
    }

    fn non_null() -> (b: bool) {
        false
    }

    fn alignment() -> (a: usize) {
        1usize << Self::ptr_shift()
    }

    fn clone_in_place() -> (b: bool) {
        true
    }

    fn into_ptr(value: Self) -> (word: usize)
        ensures
            word == value@ << ((usize::BITS - N) as u32),
    {
        let v: usize = value.value();
        let s: u32 = Self::ptr_shift();
        proof {
            assert((v << s) >> s == v && (v << s) & (((1usize << s) - 1) as usize) == 0) by (bit_vector)
                requires
                    s < usize::BITS,
                    v <= !0usize >> s,
            ;
            lemma_aligned_low_bits(v << s, s);
        }
        v << s
    }

    fn from_ptr(word: usize) -> (r: MaybeOwned<Self>) {
        let s: u32 = Self::ptr_shift();
        proof {
            assert(word >> s <= !0usize >> s) by (bit_vector)
                requires
                    s < usize::BITS,
            ;
        }
        MaybeOwned::new(Self(word >> s))
    }

    fn as_ptr(value: &Self) -> (word: usize)
        ensures
            word == value@ << ((usize::BITS - N) as u32),
    {
        Self::into_ptr(*value)
    }
}

/// The condition that `P` leaves at least `N` low bits of its words unused.
pub struct FreeBits<P, const N: u32>(PhantomData<P>);

impl<P: Pointer, const N: u32> Eval for FreeBits<P, N> {
    open spec fn result() -> bool {
        N < usize::BITS && P::spec_alignment() >= (1usize << N)
    }
}

impl<P: Pointer, const N: u32> FreeBits<P, N> {
    /// Evaluates the condition.
    pub fn check() -> (b: bool)
        requires
            P::valid(),
        ensures
            b == Self::result(),
    {
        N < usize::BITS && P::alignment() >= (1usize << N)
    }
}

/// A value of `P` with a tag of `N` bits in the highest spare bits of its word.
impl<P: Pointer, const N: u32> Pointer for (P, Bits<N>) {
    open spec fn valid() -> bool {
        P::valid() && FitsInUsize::<N>::result() && FreeBits::<P, N>::result()
    }

    open spec fn spec_non_null() -> bool {
        P::spec_non_null()
    }

    open spec fn spec_alignment() -> usize {
        tagged_alignment::<P>(N)
    }

    open spec fn spec_clone_in_place() -> bool {
        P::spec_clone_in_place()
    }

    open spec fn valid_word(word: usize) -> bool {
        tagged_word::<P>(word, N)
    }

    open spec fn decode(word: usize) -> Self {
        (P::decode(base_of::<P>(word)), Bits::of(tag_in::<P>(word, N)))
    }

    proof fn lemma_alignment() {
        lemma_tagged_alignment::<P>(N);
    }

    proof fn lemma_word_aligned(word: usize) {
    }

    proof fn lemma_word_non_null(word: usize) {
        lemma_tagged_non_null::<P>(word, N);
    }

    fn check() -> (b: bool) {
        P::check() && FitsInUsize::<N>::check() && FreeBits::<P, N>::check()
    }

    fn non_null() -> (b: bool) {
        P::non_null()
    }

    fn alignment() -> (a: usize) {
        alignment_after::<P>(N)
    }

    fn clone_in_place() -> (b: bool) {
        P::clone_in_place()
    }

    fn into_ptr(value: Self) -> (word: usize) {
        let tag: usize = value.1.value();
        let base: usize = P::into_ptr(value.0);
        let word: usize = attach::<P>(base, tag, N);
        proof {
            Self::lemma_word_aligned(word);
            Self::lemma_word_non_null(word);
        }
        word
    }

    fn from_ptr(word: usize) -> (r: MaybeOwned<Self>) {
        let parts: (usize, usize) = detach::<P>(word, N);
        let tag: Bits<N> = Bits::new_masked(parts.1);
        MaybeOwned::new((P::from_ptr(parts.0).assume_owned(), tag))
    }

    fn as_ptr(value: &Self) -> (word: usize) {
        let tag: usize = value.1.value();
        let base: usize = P::as_ptr(&value.0);
        let word: usize = attach::<P>(base, tag, N);
        proof {
            Self::lemma_word_aligned(word);
            Self::lemma_word_non_null(word);
        }
        word
    }
}

impl<P: NonNull, const N: u32> NonNull for (P, Bits<N>) {
    proof fn lemma_non_null() {
        P::lemma_non_null();
    }
}

} // verus!
