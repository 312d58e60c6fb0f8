//! Powers of two and the bit arithmetic that alignment reasoning rests on.
//!
//! An alignment is a power of two `2^k`; a word aligned to it has its low `k`
//! bits clear, and those bits are free to carry a tag.

use vstd::bits::lemma_usize_low_bits_mask_is_mod;
use vstd::bits::lemma_usize_pow2_no_overflow;
use vstd::bits::lemma_usize_shl_is_mul;
use vstd::prelude::*;

verus! {

/// Whether `a` is `2^k` for some `k` below the width of a word.
pub open spec fn is_power_of_two(a: usize) -> bool {
    exists|k: u32| k < usize::BITS && a == #[trigger] (1usize << k)
}

/// The exponent of a power of two. Meaningful only where `is_power_of_two(a)`.
pub open spec fn log2(a: usize) -> u32 {
    choose|k: u32| k < usize::BITS && a == #[trigger] (1usize << k)
}

/// The `n` low bits set: `2^n - 1`, for `n` up to the width of a word.
pub open spec fn low_mask(n: u32) -> usize {
    if n == 0 {
        0
    } else {
        !0usize >> ((usize::BITS - n) as u32)
    }
}

/// Whether `word` is a multiple of `alignment`.
pub open spec fn is_aligned(word: usize, alignment: usize) -> bool {
    word % alignment == 0
}

/// The number of bits needed to tell `n` values apart: the least `b` with
/// `n <= 2^b`. Meaningful only where `n <= 2^(BITS - 1)`.
pub open spec fn bit_width(n: usize) -> u32 {
    choose|b: u32| is_bit_width(n, b)
}

/// Whether `b` is the least exponent with `n <= 2^b`.
pub open spec fn is_bit_width(n: usize, b: u32) -> bool {
    &&& b < usize::BITS
    &&& n <= (1usize << b)
    &&& b > 0 ==> (1usize << ((b - 1) as u32)) < n
}

/// Distinct exponents give distinct powers.
pub proof fn lemma_shift_injective(j: u32, k: u32)
    requires
        j < usize::BITS,
        k < usize::BITS,
        (1usize << j) == (1usize << k),
    ensures
        j == k,
{
    assert(j == k) by (bit_vector)
        requires
            j < usize::BITS,
            k < usize::BITS,
            (1usize << j) == (1usize << k),
    ;
}

/// `2^k` is a power of two, and `k` is its exponent.
pub proof fn lemma_log2_of_shift(k: u32)
    requires
        k < usize::BITS,
    ensures
        is_power_of_two(1usize << k),
        log2(1usize << k) == k,
{
    let a = 1usize << k;
    assert(is_power_of_two(a));
    lemma_shift_injective(log2(a), k);
}

/// A power of two is `2^log2(a)`, and is not zero.
pub proof fn lemma_power_of_two(a: usize)
    requires
        is_power_of_two(a),
    ensures
        log2(a) < usize::BITS,
        a == 1usize << log2(a),
        a != 0,
{
    let k = log2(a);
    assert((1usize << k) != 0) by (bit_vector)
        requires
            k < usize::BITS,
    ;
}

/// Larger exponents give larger powers, and conversely.
pub proof fn lemma_shift_monotonic(j: u32, k: u32)
    requires
        j < usize::BITS,
        k < usize::BITS,
    ensures
        j <= k <==> (1usize << j) <= (1usize << k),
{
    assert(j <= k <==> (1usize << j) <= (1usize << k)) by (bit_vector)
        requires
            j < usize::BITS,
            k < usize::BITS,
    ;
}

/// A word with a single bit set, below bit `j`, is a power of two.
proof fn lemma_single_bit(a: usize, j: u32)
    requires
        a != 0,
        a & ((a - 1) as usize) == 0,
        j <= usize::BITS,
        j < usize::BITS ==> a >> j == 0,
    ensures
        is_power_of_two(a),
    decreases j,
{
    if j == 0 {
        assert(false) by (bit_vector)
            requires
                a != 0,
                a >> j == 0,
                j == 0,
        ;
    } else {
        let i = (j - 1) as u32;
        if a >> i == 0 {
            lemma_single_bit(a, i);
        } else {
            assert(a == 1usize << i) by (bit_vector)
                requires
                    a & ((a - 1) as usize) == 0,
                    a >> i != 0,
                    i < usize::BITS,
                    i + 1 < usize::BITS ==> a >> ((i + 1) as u32) == 0,
            ;
            lemma_log2_of_shift(i);
        }
    }
}

/// Being a multiple of `2^k` is having the `k` low bits clear.
pub proof fn lemma_aligned_low_bits(word: usize, k: u32)
    requires
        k < usize::BITS,
    ensures
        is_aligned(word, 1usize << k) <==> word & (((1usize << k) - 1) as usize) == 0,
        (1usize << k) >= 1,
{
    lemma_usize_pow2_no_overflow(k as nat);
    lemma_usize_shl_is_mul(1usize, k as usize);
    lemma_usize_low_bits_mask_is_mod(word, k as nat);
    assert(1usize << k == 1usize << (k as usize)) by (bit_vector);
}

/// `word` with the bits below `alignment`, a power of two, cleared.
pub open spec fn align_down(word: usize, alignment: usize) -> usize {
    word & !((alignment - 1) as usize)
}

/// The `bits` wide field of `word` that starts at bit `shift`.
pub open spec fn tag_of(word: usize, shift: u32, bits: u32) -> usize {
    (word >> shift) & low_mask(bits)
}

/// Below the width of a word, the low mask is `2^n - 1`.
pub proof fn lemma_low_mask(n: u32)
    requires
        n < usize::BITS,
    ensures
        low_mask(n) == (1usize << n) - 1,
        (1usize << n) >= 1,
{
    if n == 0 {
        assert((1usize << 0u32) == 1) by (bit_vector);
    } else {
        let s = (usize::BITS - n) as u32;
        assert(!0usize >> s == (1usize << n) - 1 && (1usize << n) >= 1) by (bit_vector)
            requires
                0 < n < usize::BITS,
                s == usize::BITS - n,
        ;
    }
}

/// Dividing `2^k` by `2^n` leaves `2^(k - n)`, where `2^n` does not exceed `2^k`.
pub proof fn lemma_shift_down(k: u32, n: u32)
    requires
        k < usize::BITS,
        n < usize::BITS,
        (1usize << n) <= (1usize << k),
    ensures
        n <= k,
        (1usize << k) >> n == 1usize << ((k - n) as u32),
        is_power_of_two((1usize << k) >> n),
        log2((1usize << k) >> n) == k - n,
{
    lemma_shift_monotonic(n, k);
    let d = (k - n) as u32;
    assert((1usize << k) >> n == 1usize << d) by (bit_vector)
        requires
            n <= k,
            k < usize::BITS,
            d == k - n,
    ;
    lemma_log2_of_shift(d);
}

/// A tag of `n` bits put into the `n` highest of the `k` spare bits of `base`
/// can be taken out again, and leaves `base` recoverable.
pub proof fn lemma_tag_round_trip(base: usize, tag: usize, k: u32, n: u32)
    requires
        n <= k,
        k < usize::BITS,
        is_aligned(base, 1usize << k),
        tag <= low_mask(n),
    ensures
        align_down(base | (tag << ((k - n) as u32)), 1usize << k) == base,
        tag_of(base | (tag << ((k - n) as u32)), (k - n) as u32, n) == tag,
        is_aligned(base | (tag << ((k - n) as u32)), 1usize << ((k - n) as u32)),
{
    let s = (k - n) as u32;
    let word = base | (tag << s);
    let m = low_mask(n);
    lemma_low_mask(n);
    lemma_aligned_low_bits(base, k);
    assert(word & !(((1usize << k) - 1) as usize) == base && (word >> s) & m == tag && word & (((1usize
        << s) - 1) as usize) == 0) by (bit_vector)
        requires
            n <= k,
            k < usize::BITS,
            s == k - n,
            base & (((1usize << k) - 1) as usize) == 0,
            m == (1usize << n) - 1,
            tag <= m,
            word == base | (tag << s),
    ;
    lemma_aligned_low_bits(word, s);
}

/// Clearing low bits of a word cannot make a zero word non-zero.
pub proof fn lemma_align_down_non_zero(word: usize, alignment: usize)
    requires
        align_down(word, alignment) != 0,
    ensures
        word != 0,
{
    let m = !((alignment - 1) as usize);
    assert(word & m != 0 ==> word != 0) by (bit_vector);
}

/// The bit just below `alignment`: the highest spare bit of a word aligned to it.
pub open spec fn spare_bit(alignment: usize) -> usize {
    alignment >> 1u32
}

/// A multiple of a power of two is a multiple of every smaller one.
pub proof fn lemma_aligned_weaken(word: usize, big: usize, small: usize)
    requires
        is_power_of_two(big),
        is_power_of_two(small),
        small <= big,
        is_aligned(word, big),
    ensures
        is_aligned(word, small),
{
    lemma_power_of_two(big);
    lemma_power_of_two(small);
    let j = log2(small);
    let k = log2(big);
    lemma_shift_monotonic(j, k);
    lemma_aligned_low_bits(word, j);
    lemma_aligned_low_bits(word, k);
    assert(word & (((1usize << j) - 1) as usize) == 0) by (bit_vector)
        requires
            j <= k,
            k < usize::BITS,
            word & (((1usize << k) - 1) as usize) == 0,
    ;
}

/// What holds of a word aligned to `alignment`, at least two, and of that
/// word with the spare bit set: the bit tells the two apart, each is a
/// multiple of the bit, and clearing the low bits gives the word back.
pub proof fn lemma_spare_bit(word: usize, alignment: usize)
    requires
        is_power_of_two(alignment),
        alignment >= 2,
        is_aligned(word, alignment),
    ensures
        is_power_of_two(spare_bit(alignment)),
        spare_bit(alignment) << 1u32 == alignment,
        spare_bit(alignment) != 0,
        word & spare_bit(alignment) == 0,
        (word | spare_bit(alignment)) & spare_bit(alignment) != 0,
        (word | spare_bit(alignment)) & !spare_bit(alignment) == word,
        align_down(word, alignment) == word,
        align_down(word | spare_bit(alignment), alignment) == word,
        is_aligned(word, spare_bit(alignment)),
        is_aligned(word | spare_bit(alignment), spare_bit(alignment)),
        word | spare_bit(alignment) != 0,
{
    lemma_power_of_two(alignment);
    let k = log2(alignment);
    assert(1usize << 0u32 == 1) by (bit_vector);
    assert(1usize << 1u32 == 2) by (bit_vector);
    if k == 0 {
        assert(false);
    }
    lemma_shift_monotonic(1, k);
    lemma_shift_down(k, 1);
    let j = (k - 1) as u32;
    let bit = spare_bit(alignment);
    lemma_aligned_low_bits(word, k);
    assert(bit << 1u32 == 1usize << k && bit != 0 && word & bit == 0 && (word | bit)
        & bit != 0 && (word | bit) & !bit == word && word & !(((1usize << k) - 1) as usize) == word
        && (word | bit) & !(((1usize << k) - 1) as usize) == word && word & (((1usize << j) - 1) as usize)
        == 0 && (word | bit) & (((1usize << j) - 1) as usize) == 0 && word | bit != 0) by (bit_vector)
        requires
            0 < k < usize::BITS,
            j == k - 1,
            bit == 1usize << j,
            word & (((1usize << k) - 1) as usize) == 0,
    ;
    lemma_aligned_low_bits(word, j);
    lemma_aligned_low_bits(word | bit, j);
}

/// A word with the bit `bit` set is the rest of the word with that bit put back.
pub proof fn lemma_split_bit(word: usize, bit: usize)
    requires
        is_power_of_two(bit),
        word & bit != 0,
    ensures
        (word & !bit) | bit == word,
{
    lemma_power_of_two(bit);
    let k = log2(bit);
    assert((word & !bit) | bit == word) by (bit_vector)
        requires
            k < usize::BITS,
            bit == 1usize << k,
            word & bit != 0,
    ;
}

/// Zero is a multiple of every power of two.
pub proof fn lemma_zero_aligned(alignment: usize)
    requires
        is_power_of_two(alignment),
    ensures
        is_aligned(0, alignment),
{
    lemma_power_of_two(alignment);
}

/// A power of two is a multiple of itself.
pub proof fn lemma_self_aligned(alignment: usize)
    requires
        is_power_of_two(alignment),
    ensures
        is_aligned(alignment, alignment),
{
    lemma_power_of_two(alignment);
}

/// The exponent of a power of two.
pub fn trailing_zeros(a: usize) -> (k: u32)
    requires
        is_power_of_two(a),
    ensures
        k == log2(a),
        k < usize::BITS,
        a == 1usize << k,
{
    proof {
        lemma_power_of_two(a);
    }
    let mut k: u32 = 0;
    while (1usize << k) != a
        invariant
            is_power_of_two(a),
            k <= log2(a),
            log2(a) < usize::BITS,
            a == 1usize << log2(a),
        decreases log2(a) - k,
    {
        k = k + 1;
    }
    proof {
        lemma_shift_injective(k, log2(a));
    }
    k
}

/// Whether `a` is a power of two.
pub fn power_of_two(a: usize) -> (b: bool)
    ensures
        b == is_power_of_two(a),
{
    if a == 0 {
        proof {
            if is_power_of_two(a) {
                lemma_power_of_two(a);
            }
        }
        false
    } else {
        let single: bool = a & (a - 1) == 0;
        proof {
            if single {
                lemma_single_bit(a, usize::BITS);
            }
            if is_power_of_two(a) {
                lemma_power_of_two(a);
                let k = log2(a);
                assert((1usize << k) & (((1usize << k) - 1) as usize) == 0) by (bit_vector)
                    requires
                        k < usize::BITS,
                ;
            }
        }
        single
    }
}

/// The least power of two that is not below `n`.
pub fn next_power_of_two(n: usize) -> (p: usize)
    requires
        n <= 1usize << ((usize::BITS - 1) as u32),
    ensures
        is_power_of_two(p),
        is_bit_width(n, bit_width(n)),
        log2(p) == bit_width(n),
        p == 1usize << bit_width(n),
        p >= n,
{
    let mut b: u32 = 0;
    let mut p: usize = 1;
    assert(1usize << 0u32 == 1) by (bit_vector);
    while p < n
        invariant
            b < usize::BITS,
            p == 1usize << b,
            n <= 1usize << ((usize::BITS - 1) as u32),
            b > 0 ==> (1usize << ((b - 1) as u32)) < n,
        decreases usize::BITS - b,
    {
        proof {
            lemma_shift_monotonic(b, (usize::BITS - 1) as u32);
            let c = (b + 1) as u32;
            assert((1usize << b) << 1u32 == 1usize << c) by (bit_vector)
                requires
                    c == b + 1,
                    c < usize::BITS,
            ;
        }
        p = p << 1u32;
        b = b + 1;
    }
    proof {
        lemma_log2_of_shift(b);
        assert(is_bit_width(n, b));
        lemma_bit_width_unique(n, b, bit_width(n));
    }
    p
}

/// There is one least exponent `b` with `n <= 2^b`.
pub proof fn lemma_bit_width_unique(n: usize, b: u32, c: u32)
    requires
        is_bit_width(n, b),
        is_bit_width(n, c),
    ensures
        b == c,
{
    if b < c {
        lemma_shift_monotonic(b, (c - 1) as u32);
    }
    if c < b {
        lemma_shift_monotonic(c, (b - 1) as u32);
    }
}

/// Some exponent up to `b` is the least with `n <= 2^b`.
proof fn lemma_bit_width_below(n: usize, b: u32)
    requires
        b < usize::BITS,
        n <= 1usize << b,
    ensures
        exists|c: u32| is_bit_width(n, c),
    decreases b,
{
    if b > 0 && n <= 1usize << ((b - 1) as u32) {
        lemma_bit_width_below(n, (b - 1) as u32);
    } else {
        assert(is_bit_width(n, b));
    }
}

/// Every number up to the highest power of two has a bit width, and fits
/// into that many bits where it is not zero.
pub proof fn lemma_bit_width(n: usize)
    requires
        n <= 1usize << ((usize::BITS - 1) as u32),
    ensures
        is_bit_width(n, bit_width(n)),
        n >= 1 ==> n - 1 <= low_mask(bit_width(n)),
{
    lemma_bit_width_below(n, (usize::BITS - 1) as u32);
    lemma_low_mask(bit_width(n));
}

/// A number that does not exceed `2^k` has a bit width of at most `k`.
pub proof fn lemma_bit_width_bound(n: usize, k: u32)
    requires
        k < usize::BITS,
        n <= 1usize << k,
    ensures
        is_bit_width(n, bit_width(n)),
        bit_width(n) <= k,
        (1usize << bit_width(n)) <= (1usize << k),
{
    lemma_bit_width_below(n, k);
    let b = bit_width(n);
    if b > k {
        lemma_shift_monotonic(k, (b - 1) as u32);
    }
    lemma_shift_monotonic(b, k);
}

/// The smaller of two numbers.
pub open spec fn spec_min(x: usize, y: usize) -> usize {
    if x < y {
        x
    } else {
        y
    }
}

/// The larger of two numbers.
pub open spec fn spec_max(x: usize, y: usize) -> usize {
    if x > y {
        x
    } else {
        y
    }
}

/// The smaller of two numbers.
#[verifier::when_used_as_spec(spec_min)]
pub fn min(x: usize, y: usize) -> (m: usize)
    ensures
        m == spec_min(x, y),
{
    if x < y {
        x
    } else {
        y
    }
}

/// The larger of two numbers.
#[verifier::when_used_as_spec(spec_max)]
pub fn max(x: usize, y: usize) -> (m: usize)
    ensures
        m == spec_max(x, y),
{
    if x > y {
        x
    } else {
        y
    }
}

} // verus!
