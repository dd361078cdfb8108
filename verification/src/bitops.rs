//! The raw-bit core: masks over a 128-bit word, two's-complement
//! signed encodings, and the bit-level facts about inserting and
//! extracting a field's bit range.
//!
//! Mask arithmetic is done in 128 bits — wide enough for the largest
//! supported storage — so that `(1 << width) - 1` never overflows even
//! for maximal field widths.

use vstd::prelude::*;
use vstd::arithmetic::power2::{
    pow2, lemma_pow2_adds, lemma_pow2_pos, lemma_pow2_strictly_increases, lemma2_to64,
    lemma2_to64_rest,
};
use vstd::bits::{
    low_bits_mask, lemma_low_bits_mask_unfold, lemma_low_bits_mask_values, lemma_u128_shr_is_div,
};

verus! {

/// The mask with the low `w` bits set, in a 128-bit word.
pub open spec fn mask_spec(w: nat) -> u128
    recommends
        w <= 128,
{
    low_bits_mask(w) as u128
}

/// The powers of two just beyond the 64-bit table of vstd.
pub proof fn lemma_pow2_big()
    ensures
        pow2(127) == 0x8000_0000_0000_0000_0000_0000_0000_0000,
        pow2(128) == 0x1_0000_0000_0000_0000_0000_0000_0000_0000,
{
    lemma_pow2_adds(63, 64);
    lemma_pow2_adds(64, 64);
    lemma2_to64();
    lemma2_to64_rest();
}

/// The mask of width `w` is `pow2(w) - 1`, and fits in 128 bits.
pub proof fn lemma_mask_bounds(w: nat)
    requires
        1 <= w <= 128,
    ensures
        mask_spec(w) == pow2(w) - 1,
        pow2(w) <= pow2(128),
        pow2((w - 1) as nat) <= pow2(127),
{
    lemma_pow2_pos(w);
    if w < 128 {
        lemma_pow2_strictly_increases(w, 128);
    }
    if w - 1 < 127 {
        lemma_pow2_strictly_increases((w - 1) as nat, 127);
    }
    lemma_pow2_big();
}

/// The mask of width `w` equals the all-ones word shifted right by
/// `128 - w`: the form the executable mask computation uses.
pub proof fn lemma_mask_shr_form(w: nat)
    requires
        1 <= w <= 128,
    ensures
        mask_spec(w) == u128::MAX >> ((128 - w) as u128),
    decreases w,
{
    lemma_mask_bounds(w);
    if w == 1 {
        lemma_low_bits_mask_values();
        assert(u128::MAX >> 127u128 == 1) by (bit_vector);
    } else {
        lemma_mask_shr_form((w - 1) as nat);
        lemma_low_bits_mask_unfold(w);
        lemma_mask_bounds((w - 1) as nat);
        let s = (128 - w) as u128;
        let s1 = (128 - (w - 1)) as u128;
        assert(u128::MAX >> s == 2 * (u128::MAX >> s1) + 1) by (bit_vector)
            requires
                s <= 126,
                s1 == s + 1,
        ;
    }
}

/// Splitting off the top bit of a mask: `(mask(w) >> 1) + 1` is
/// `pow2(w - 1)`, the weight of a signed field's sign bit.
pub proof fn lemma_mask_half(w: nat)
    requires
        1 <= w <= 128,
    ensures
        (mask_spec(w) >> 1u128) + 1 == pow2((w - 1) as nat),
{
    lemma_mask_bounds(w);
    lemma_u128_shr_is_div(mask_spec(w), 1);
    lemma2_to64();
    lemma_pow2_adds((w - 1) as nat, 1);
    lemma_pow2_pos((w - 1) as nat);
    let k = pow2((w - 1) as nat) as int;
    assert(mask_spec(w) == 2 * k - 1);
    assert((2 * k - 1) / 2 == k - 1) by (nonlinear_arith)
        requires
            k >= 1,
    ;
}

/// Computes the mask with the low `w` bits set.
pub fn mask_of_width(w: u32) -> (m: u128)
    requires
        1 <= w <= 128,
    ensures
        m == mask_spec(w as nat),
{
    proof {
        lemma_mask_shr_form(w as nat);
    }
    u128::MAX >> ((128 - w) as u128)
}

/// The smallest value representable in a signed field of width `w`.
pub open spec fn sint_min(w: nat) -> int
    recommends
        1 <= w,
{
    -(pow2((w - 1) as nat) as int)
}

/// The largest value representable in a signed field of width `w`.
pub open spec fn sint_max(w: nat) -> int
    recommends
        1 <= w,
{
    pow2((w - 1) as nat) - 1
}

/// Whether `v` fits a signed field of width `w` in two's complement.
pub open spec fn sint_in_range(v: int, w: nat) -> bool
    recommends
        1 <= w,
{
    sint_min(w) <= v <= sint_max(w)
}

/// The low `w` bits of the two's-complement representation of `v`.
pub open spec fn sint_bits(v: int, w: nat) -> u128
    recommends
        1 <= w <= 128 && sint_in_range(v, w),
{
    if v >= 0 {
        v as u128
    } else {
        (v + pow2(w)) as u128
    }
}

/// The signed value encoded by the low `w` bits `b`: sign extension by
/// subtracting `pow2(w)` whenever the sign bit is set.
pub open spec fn sint_value(b: u128, w: nat) -> int
    recommends
        1 <= w <= 128 && b <= mask_spec(w),
{
    if b < pow2((w - 1) as nat) {
        b as int
    } else {
        b - pow2(w)
    }
}

/// Encoding a representable signed value and decoding it again is the
/// identity, and the encoding always stays within the field's mask.
pub proof fn lemma_sint_round_trip(v: int, w: nat)
    requires
        1 <= w <= 128,
        sint_in_range(v, w),
    ensures
        sint_bits(v, w) <= mask_spec(w),
        sint_value(sint_bits(v, w), w) == v,
{
    lemma_mask_bounds(w);
    lemma_pow2_adds((w - 1) as nat, 1);
    lemma2_to64();
    lemma_pow2_pos((w - 1) as nat);
}

/// Bounds of the signed range against the 128-bit machine limits.
pub proof fn lemma_sint_range_bounds(w: nat)
    requires
        1 <= w <= 128,
    ensures
        sint_min(w) >= i128::MIN,
        sint_max(w) <= i128::MAX,
        sint_min(128) == i128::MIN,
        sint_max(128) == i128::MAX,
{
    lemma_mask_bounds(w);
    lemma_pow2_big();
}

/// Encodes a signed value into the low `w` bits of a 128-bit word.
pub fn sint_to_bits(v: i128, w: u32) -> (b: u128)
    requires
        1 <= w <= 128,
        sint_in_range(v as int, w as nat),
    ensures
        b == sint_bits(v as int, w as nat),
        b <= mask_spec(w as nat),
{
    proof {
        lemma_sint_round_trip(v as int, w as nat);
        lemma_mask_bounds(w as nat);
        lemma_pow2_big();
    }
    if v >= 0 {
        v as u128
    } else {
        let m = mask_of_width(w);
        let mag1: i128 = -(v + 1);
        m - (mag1 as u128)
    }
}

/// Decodes the low `w` bits of a 128-bit word as a signed value,
/// reproducing the sign by extension.
pub fn sint_from_bits(b: u128, w: u32) -> (v: i128)
    requires
        1 <= w <= 128,
        b <= mask_spec(w as nat),
    ensures
        v as int == sint_value(b, w as nat),
        sint_in_range(v as int, w as nat),
{
    proof {
        lemma_mask_bounds(w as nat);
        lemma_mask_half(w as nat);
        lemma_pow2_big();
        lemma_pow2_adds((w - 1) as nat, 1);
        lemma2_to64();
    }
    let m = mask_of_width(w);
    let half = (m >> 1u128) + 1;
    if b < half {
        b as i128
    } else {
        let mag1 = m - b;
        -(mag1 as i128) - 1
    }
}

/// Extracting a just-inserted field returns exactly the inserted bits.
#[verifier::rlimit(100)]
#[verifier::spinoff_prover]
pub proof fn lemma_insert_extract(raw: u128, b: u128, o: u128, w: u128, s: u128, m: u128)
    by (bit_vector)
    requires
        1 <= w <= 128,
        w + s == 128,
        o + w <= 128,
        m == u128::MAX >> s,
        b <= m,
    ensures
        (((raw & !(m << o)) | ((b & m) << o)) >> o) & m == b,
{
}

/// Inserting into one bit range leaves every disjoint bit range as it was.
#[verifier::rlimit(100)]
#[verifier::spinoff_prover]
pub proof fn lemma_insert_preserves(
    raw: u128,
    b: u128,
    o1: u128,
    w1: u128,
    s1: u128,
    m1: u128,
    o2: u128,
    w2: u128,
    s2: u128,
    m2: u128,
)
    by (bit_vector)
    requires
        1 <= w1 <= 128,
        w1 + s1 == 128,
        o1 + w1 <= 128,
        m1 == u128::MAX >> s1,
        1 <= w2 <= 128,
        w2 + s2 == 128,
        o2 + w2 <= 128,
        m2 == u128::MAX >> s2,
        o1 + w1 <= o2 || o2 + w2 <= o1,
    ensures
        (((raw & !(m1 << o1)) | ((b & m1) << o1)) >> o2) & m2 == (raw >> o2) & m2,
{
}

/// Inserting into a bit range that is still all zero is a plain OR.
pub proof fn lemma_insert_zero_is_or(raw: u128, b: u128, o: u128, w: u128, s: u128, m: u128)
    by (bit_vector)
    requires
        1 <= w <= 128,
        w + s == 128,
        o + w <= 128,
        m == u128::MAX >> s,
        raw & (m << o) == 0,
    ensures
        (raw & !(m << o)) | ((b & m) << o) == raw | ((b & m) << o),
{
}

/// Bits placed in one range never touch a disjoint range.
#[verifier::rlimit(100)]
#[verifier::spinoff_prover]
pub proof fn lemma_shifted_disjoint(
    b: u128,
    o1: u128,
    w1: u128,
    s1: u128,
    m1: u128,
    o2: u128,
    w2: u128,
    s2: u128,
    m2: u128,
)
    by (bit_vector)
    requires
        1 <= w1 <= 128,
        w1 + s1 == 128,
        o1 + w1 <= 128,
        m1 == u128::MAX >> s1,
        1 <= w2 <= 128,
        w2 + s2 == 128,
        o2 + w2 <= 128,
        m2 == u128::MAX >> s2,
        o1 + w1 <= o2 || o2 + w2 <= o1,
    ensures
        ((b & m1) << o1) & (m2 << o2) == 0,
{
}

/// A word with two bit regions clear keeps a region clear under OR.
pub proof fn lemma_or_preserves_zero(a: u128, b: u128, r: u128)
    by (bit_vector)
    requires
        a & r == 0,
        b & r == 0,
    ensures
        (a | b) & r == 0,
{
}

/// The zero word has no bits in any region.
pub proof fn lemma_zero_and(x: u128)
    by (bit_vector)
    ensures
        0u128 & x == 0,
{
}

/// An extracted field value never exceeds the field's mask.
pub proof fn lemma_extract_le_mask(raw: u128, o: u128, m: u128)
    by (bit_vector)
    ensures
        (raw >> o) & m <= m,
{
}

} // verus!
