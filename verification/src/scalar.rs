//! Backends that are plain words or carry no information at all.

use crate::align::is_power_of_two;
use crate::align::lemma_log2_of_shift;
use crate::maybe_owned::MaybeOwned;
use crate::pointer::NonNull;
use crate::pointer::Pointer;
use vstd::prelude::*;

verus! {

/// The largest alignment a word can have: only the top bit set.
pub open spec fn top_bit() -> usize {
    1usize << ((usize::BITS - 1) as u32)
}

/// The largest alignment a word can have.
pub fn top_alignment() -> (a: usize)
    ensures
        a == top_bit(),
        is_power_of_two(a),
        a != 0,
{
    proof {
        lemma_log2_of_shift((usize::BITS - 1) as u32);
        let k = (usize::BITS - 1) as u32;
        assert((1usize << k) != 0) by (bit_vector)
            requires
                k < usize::BITS,
        ;
    }
    1usize << (usize::BITS - 1)
}

/// A word stands for itself.
impl Pointer for usize {
    open spec fn valid() -> bool {
        true
    }

    open spec fn spec_non_null() -> bool {
        false
    }

    open spec fn spec_alignment() -> usize {
        1
    }

    open spec fn spec_clone_in_place() -> bool {
        true
    }

    open spec fn valid_word(word: usize) -> bool {
        true
    }

    open spec fn decode(word: usize) -> Self {
        word
    }

    proof fn lemma_alignment() {
        assert(1usize << 0u32 == 1) by (bit_vector);
        lemma_log2_of_shift(0);
    }

    proof fn lemma_word_aligned(word: usize) {
    }

    proof fn lemma_word_non_null(word: usize) {
    }

    fn check() -> (b: bool) {
        true
    }

    fn non_null() -> (b: bool) {
        false
    }

    fn alignment() -> (a: usize) {
        1
    }

    fn clone_in_place() -> (b: bool) {
        true
    }

    fn into_ptr(value: Self) -> (word: usize)
        ensures
            word == value,
    {
        value
    }

    fn from_ptr(word: usize) -> (r: MaybeOwned<Self>) {
        MaybeOwned::new(word)
    }

    fn as_ptr(value: &Self) -> (word: usize)
        ensures
            word == *value,
    {
        *value
    }
}

/// The unit value is encoded as the one word with only the top bit set.
impl Pointer for () {
    open spec fn valid() -> bool {
        true
    }

    open spec fn spec_non_null() -> bool {
        true
    }

    open spec fn spec_alignment() -> usize {
        top_bit()
    }

    open spec fn spec_clone_in_place() -> bool {
        true
    }

    open spec fn valid_word(word: usize) -> bool {
        word == top_bit()
    }

    open spec fn decode(word: usize) -> Self {
        ()
    }

    proof fn lemma_alignment() {
        lemma_log2_of_shift((usize::BITS - 1) as u32);
    }

    proof fn lemma_word_aligned(word: usize) {
        let k = (usize::BITS - 1) as u32;
        assert((1usize << k) % (1usize << k) == 0) by (bit_vector)
            requires
                k < usize::BITS,
        ;
    }

    proof fn lemma_word_non_null(word: usize) {
        let k = (usize::BITS - 1) as u32;
        assert((1usize << k) != 0) by (bit_vector)
            requires
                k < usize::BITS,
        ;
    }

    fn check() -> (b: bool) {
        true
    }

    fn non_null() -> (b: bool) {
        true
    }

    fn alignment() -> (a: usize) {
        top_alignment()
    }

    fn clone_in_place() -> (b: bool) {
        true
    }

    fn into_ptr(value: Self) -> (word: usize)
        ensures
            word == top_bit(),
    {
        let word: usize = top_alignment();
        proof {
            Self::lemma_word_aligned(word);
            Self::lemma_word_non_null(word);
        }
        word
    }

    fn from_ptr(word: usize) -> (r: MaybeOwned<Self>) {
        MaybeOwned::new(())
    }

    fn as_ptr(value: &Self) -> (word: usize)
        ensures
            word == top_bit(),
    {
        let word: usize = top_alignment();
        proof {
            Self::lemma_word_aligned(word);
            Self::lemma_word_non_null(word);
        }
        word
    }
}

impl NonNull for () {
    proof fn lemma_non_null() {
    }
}

/// A value always encoded as the zero word.
#[derive(Debug, Clone, Copy, PartialEq, Eq, Structural)]
pub struct Null;

impl Pointer for Null {
    open spec fn valid() -> bool {
        true
    }

    open spec fn spec_non_null() -> bool {
        false
    }

    open spec fn spec_alignment() -> usize {
        top_bit()
    }

    open spec fn spec_clone_in_place() -> bool {
        true
    }

    open spec fn valid_word(word: usize) -> bool {
        word == 0
    }

    open spec fn decode(word: usize) -> Self {
        Null
    }

    proof fn lemma_alignment() {
        lemma_log2_of_shift((usize::BITS - 1) as u32);
    }

    proof fn lemma_word_aligned(word: usize) {
        let k = (usize::BITS - 1) as u32;
        assert(0usize % (1usize << k) == 0) by (bit_vector)
            requires
                k < usize::BITS,
        ;
    }

    proof fn lemma_word_non_null(word: usize) {
    }

    fn check() -> (b: bool) {
        true
    }

    fn non_null() -> (b: bool) {
        false
    }

    fn alignment() -> (a: usize) {
        top_alignment()
    }

    fn clone_in_place() -> (b: bool) {
        true
    }

    fn into_ptr(value: Self) -> (word: usize)
        ensures
            word == 0,
    {
        proof {
            Self::lemma_word_aligned(0);
            Self::lemma_word_non_null(0);
        }
        0
    }

    fn from_ptr(word: usize) -> (r: MaybeOwned<Self>) {
        MaybeOwned::new(Null)
    }

    fn as_ptr(value: &Self) -> (word: usize)
        ensures
            word == 0,
    {
        proof {
            Self::lemma_word_aligned(0);
            Self::lemma_word_non_null(0);
        }
        0
    }
}

} // verus!
