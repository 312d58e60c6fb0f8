//! Packing a tag into the spare low bits of a backend's word.
//!
//! A backend aligned to `2^k` leaves `k` low bits clear. A tag of `bits <= k`
//! bits goes into the highest of them, which leaves words that are still
//! aligned to `2^(k - bits)`: a tagged word can be tagged again.

use crate::align::align_down;
use crate::align::is_aligned;
use crate::align::is_power_of_two;
use crate::align::lemma_align_down_non_zero;
use crate::align::lemma_power_of_two;
use crate::align::lemma_shift_down;
use crate::align::lemma_tag_round_trip;
use crate::align::log2;
use crate::align::low_mask;
use crate::align::tag_of;
use crate::align::trailing_zeros;
use crate::pointer::Pointer;
use vstd::prelude::*;

verus! {

/// Whether `P` has `bits` spare bits.
pub open spec fn has_spare_bits<P: Pointer>(bits: u32) -> bool {
    P::valid() && bits < usize::BITS && P::spec_alignment() >= (1usize << bits)
}

/// The alignment left when `bits` of the spare bits of `P` hold a tag.
pub open spec fn tagged_alignment<P: Pointer>(bits: u32) -> usize {
    P::spec_alignment() >> bits
}

/// The bit at which a tag of `bits` bits starts in a word of `P`.
pub open spec fn tag_shift<P: Pointer>(bits: u32) -> u32 {
    log2(tagged_alignment::<P>(bits))
}

/// The part of a tagged word that is the word of `P`.
pub open spec fn base_of<P: Pointer>(word: usize) -> usize {
    align_down(word, P::spec_alignment())
}

/// The tag of `bits` bits in a tagged word of `P`.
pub open spec fn tag_in<P: Pointer>(word: usize, bits: u32) -> usize {
    tag_of(word, tag_shift::<P>(bits), bits)
}

/// Whether `word` is a word of `P` with something in `bits` of its spare bits.
pub open spec fn tagged_word<P: Pointer>(word: usize, bits: u32) -> bool {
    P::valid_word(base_of::<P>(word)) && is_aligned(word, tagged_alignment::<P>(bits))
}

/// What is left of the alignment is a power of two, `bits` exponents lower.
pub proof fn lemma_tagged_alignment<P: Pointer>(bits: u32)
    requires
        has_spare_bits::<P>(bits),
    ensures
        is_power_of_two(tagged_alignment::<P>(bits)),
        tag_shift::<P>(bits) + bits == log2(P::spec_alignment()),
        is_power_of_two(P::spec_alignment()),
        P::spec_alignment() >= 1,
{
    P::lemma_alignment();
    lemma_power_of_two(P::spec_alignment());
    lemma_shift_down(log2(P::spec_alignment()), bits);
}

/// A tagged word is not zero where the words of `P` are not.
pub proof fn lemma_tagged_non_null<P: Pointer>(word: usize, bits: u32)
    requires
        has_spare_bits::<P>(bits),
        tagged_word::<P>(word, bits),
    ensures
        P::spec_non_null() ==> word != 0,
{
    P::lemma_word_non_null(base_of::<P>(word));
    if P::spec_non_null() {
        lemma_align_down_non_zero(word, P::spec_alignment());
    }
}

/// The alignment left when `bits` of the spare bits of `P` hold a tag.
pub fn alignment_after<P: Pointer>(bits: u32) -> (a: usize)
    requires
        has_spare_bits::<P>(bits),
    ensures
        a == tagged_alignment::<P>(bits),
{
    P::alignment() >> bits
}

/// Puts `tag` into the `bits` highest spare bits of `base`, a word of `P`.
pub fn attach<P: Pointer>(base: usize, tag: usize, bits: u32) -> (word: usize)
    requires
        has_spare_bits::<P>(bits),
        P::valid_word(base),
        tag <= low_mask(bits),
    ensures
        word == base | (tag << tag_shift::<P>(bits)),
        tagged_word::<P>(word, bits),
        base_of::<P>(word) == base,
        tag_in::<P>(word, bits) == tag,
{
    proof {
        lemma_tagged_alignment::<P>(bits);
        P::lemma_word_aligned(base);
        lemma_tag_round_trip(base, tag, log2(P::spec_alignment()), bits);
    }
    let shift: u32 = trailing_zeros(alignment_after::<P>(bits));
    base | (tag << shift)
}

/// Takes a tagged word of `P` apart: the word of `P`, and the bits from the
/// tag's lowest bit upwards.
pub fn detach<P: Pointer>(word: usize, bits: u32) -> (r: (usize, usize))
    requires
        has_spare_bits::<P>(bits),
    ensures
        r.0 == base_of::<P>(word),
        r.1 == word >> tag_shift::<P>(bits),
{
    proof {
        lemma_tagged_alignment::<P>(bits);
    }
    let shift: u32 = trailing_zeros(alignment_after::<P>(bits));
    (word & !(P::alignment() - 1), word >> shift)
}

} // verus!
