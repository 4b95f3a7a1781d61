//! Binary64 numbers as bit patterns.
//!
//! A number travels through the crate as the `u64` that holds its IEEE 754
//! binary64 bits: one sign bit, eleven bits of exponent, fifty-two bits of
//! significand. Sign changes, comparisons and the floor of a number are
//! decided here on the bits themselves. Rounded arithmetic is done by the
//! `const_soft_float` crate; the contracts name each rounded result and claim
//! nothing more about it.

use vstd::prelude::*;
use const_soft_float::soft_f64::SoftF64;

verus! {

/// The sign bit of a binary64 pattern.
pub const SIGN_BIT: u64 = 0x8000_0000_0000_0000;

/// The pattern of positive infinity; every larger magnitude is a NaN.
pub const INFINITY: u64 = 0x7ff0_0000_0000_0000;

/// `0.0`
pub const ZERO: u64 = 0;

/// `1.0`
pub const ONE: u64 = 0x3ff0_0000_0000_0000;

/// `0.5`
pub const HALF: u64 = 0x3fe0_0000_0000_0000;

/// `0.1`
pub const TENTH: u64 = 0x3fb9_9999_9999_999a;

/// `10.0`
pub const TEN: u64 = 0x4024_0000_0000_0000;

/// `2.0`
pub const TWO: u64 = 0x4000_0000_0000_0000;

/// `2^-52`
pub const TWO_POW_MINUS_52: u64 = 0x3cb0_0000_0000_0000;

/// The bits of the significand.
pub const SIGNIFICAND_MASK: u64 = 0x000f_ffff_ffff_ffff;

/// The leading bit of the significand of a normal number, which the pattern
/// does not store.
pub const HIDDEN_BIT: u64 = 0x0010_0000_0000_0000;

/// How two numbers compare; `Unordered` when either is a NaN.
#[derive(Clone, Copy, Debug, PartialEq, Eq, Structural)]
pub enum FloatOrder {
    Less,
    Equal,
    Greater,
    Unordered,
}

/// The pattern with its sign bit cleared, as a mathematical integer.
pub open spec fn magnitude(a: u64) -> int {
    if a >= SIGN_BIT {
        a - SIGN_BIT
    } else {
        a as int
    }
}

/// Whether the pattern is a NaN.
pub open spec fn is_nan(a: u64) -> bool {
    magnitude(a) > INFINITY
}

/// An integer that orders the non-NaN patterns as their values are ordered;
/// the two zeros share the key 0.
pub open spec fn value_key(a: u64) -> int {
    if a >= SIGN_BIT {
        -magnitude(a)
    } else {
        magnitude(a)
    }
}

/// An integer that orders all patterns totally: negative NaNs first, then
/// the negative numbers, `-0.0`, `0.0`, the positive numbers, positive NaNs.
pub open spec fn total_key(a: u64) -> int {
    if a >= SIGN_BIT {
        -magnitude(a) - 1
    } else {
        magnitude(a)
    }
}

/// The IEEE comparison of two patterns.
pub open spec fn order_spec(a: u64, b: u64) -> FloatOrder {
    if is_nan(a) || is_nan(b) {
        FloatOrder::Unordered
    } else if value_key(a) < value_key(b) {
        FloatOrder::Less
    } else if value_key(a) == value_key(b) {
        FloatOrder::Equal
    } else {
        FloatOrder::Greater
    }
}

/// `a < b` as numbers; false when either is a NaN.
pub open spec fn lt_spec(a: u64, b: u64) -> bool {
    order_spec(a, b) == FloatOrder::Less
}

/// Whether the pattern is one of the two zeros.
pub open spec fn is_zero_spec(a: u64) -> bool {
    magnitude(a) == 0
}

/// The pattern of `-a`: the same bits with the sign flipped.
pub open spec fn neg_spec(a: u64) -> u64 {
    if a >= SIGN_BIT {
        (a - SIGN_BIT) as u64
    } else {
        (a + SIGN_BIT) as u64
    }
}

/// The sum of two numbers as binary64 arithmetic gives it: the pattern that
/// `SoftF64::add` returns for the two patterns.
pub uninterp spec fn sum_spec(a: u64, b: u64) -> u64;

/// The product of two numbers as binary64 arithmetic gives it: the pattern
/// that `SoftF64::mul` returns for the two patterns.
pub uninterp spec fn product_spec(a: u64, b: u64) -> u64;

/// The quotient of two numbers as binary64 arithmetic gives it: the pattern
/// that `SoftF64::div` returns for the two patterns.
pub uninterp spec fn quotient_spec(a: u64, b: u64) -> u64;

/// The square root of a number as binary64 arithmetic gives it: the pattern
/// that `SoftF64::sqrt` returns for the pattern.
pub uninterp spec fn root_spec(a: u64) -> u64;

/// Whether the pattern is a positive subnormal number: above zero and below
/// the smallest normal number. Its value is the pattern itself times
/// `2^-1074`.
pub open spec fn is_small_spec(a: u64) -> bool {
    0 < a < HIDDEN_BIT
}

/// One step of bringing a subnormal's digits up: where the digits `m` are
/// below `limit` they are multiplied by `factor`, a power of two, and the
/// exponent field `e` is lowered by `places`, the number of places moved.
pub open spec fn raised_spec(step: (int, int), limit: int, factor: int, places: int) -> (int, int) {
    if step.0 < limit {
        (step.0 * factor, step.1 - places)
    } else {
        step
    }
}

/// The digits of a positive subnormal moved up until the leading one stands
/// in the place of the hidden bit, by 32, 16, 8, 4, 2 and 1 places as far as
/// each is needed, with the exponent field of the number times `2^104`: 105
/// less the number of places moved.
pub open spec fn normalized_spec(a: u64) -> (int, int) {
    let by_32 = raised_spec((a as int, 105), 0x20_0000, 0x1_0000_0000, 32);
    let by_16 = raised_spec(by_32, 0x20_0000_0000, 0x1_0000, 16);
    let by_8 = raised_spec(by_16, 0x2000_0000_0000, 0x100, 8);
    let by_4 = raised_spec(by_8, 0x2_0000_0000_0000, 0x10, 4);
    let by_2 = raised_spec(by_4, 0x8_0000_0000_0000, 4, 2);
    raised_spec(by_2, 0x10_0000_0000_0000, 2, 1)
}

/// The pattern of a positive subnormal number times `2^104`, which is a
/// normal number: the exponent field of `normalized_spec`, and its digits
/// without the leading one.
pub open spec fn scaled_up_spec(a: u64) -> u64 {
    let normal = normalized_spec(a);
    (normal.1 * HIDDEN_BIT + (normal.0 - HIDDEN_BIT)) as u64
}

/// The square root of a number. For a positive subnormal number it is taken
/// of the number times `2^104` and then multiplied by `2^-52`, which gives
/// the root of the number itself: both factors are powers of two and both
/// results are normal, so neither step rounds.
pub open spec fn sqrt_spec(a: u64) -> u64 {
    if is_small_spec(a) {
        product_spec(root_spec(scaled_up_spec(a)), TWO_POW_MINUS_52)
    } else {
        root_spec(a)
    }
}

/// The exponent field of the pattern. A number with the field `e` between 1
/// and 2046 is normal and has the value `significand * 2^(e - 1075)`.
pub open spec fn exponent_spec(a: u64) -> u64 {
    (a >> 52) & 0x7ff
}

/// The significand of a normal number, with its hidden bit: an integer from
/// `2^52` up to `2^53 - 1`.
pub open spec fn significand_spec(a: u64) -> u64 {
    (a & SIGNIFICAND_MASK) | HIDDEN_BIT
}

/// The largest whole number not above `a`, held to the range of `i32`: a
/// number beyond either end gives that end, and a NaN gives 0.
///
/// Below magnitude 1 (exponent field under 1023) the floor is 0, or -1 for a
/// negative number other than zero. From magnitude `2^31` on (exponent field
/// 1054 or more) the result is the end of the range on the number's side.
/// Between them the whole part is the significand without its last
/// `1075 - e` bits; a negative number with any of those bits set lies below
/// its whole part, so its floor is one less.
pub open spec fn floor_spec(a: u64) -> i32 {
    let e = exponent_spec(a);
    let shift = (1075 - e) as u64;
    let whole = significand_spec(a) >> shift;
    if is_nan(a) {
        0
    } else if e < 1023 {
        if a >= SIGN_BIT && !is_zero_spec(a) {
            -1i32
        } else {
            0i32
        }
    } else if e >= 1054 {
        if a >= SIGN_BIT {
            i32::MIN
        } else {
            i32::MAX
        }
    } else if a < SIGN_BIT {
        whole as i32
    } else if (whole << shift) != significand_spec(a) {
        (-(whole as int) - 1) as i32
    } else {
        (-(whole as int)) as i32
    }
}

/// The number `n`, built from its binary digits: twice the number of the
/// digits before the last, plus the last digit. Every step is exact while
/// `n` is below `2^53`.
pub open spec fn count_spec(n: nat) -> u64
    decreases n,
{
    if n == 0 {
        ZERO
    } else {
        sum_spec(
            product_spec(count_spec(n / 2), TWO),
            if n % 2 == 1 {
                ONE
            } else {
                ZERO
            },
        )
    }
}

/// The number that equals the integer `i`.
pub open spec fn whole_spec(i: i32) -> u64 {
    if i < 0 {
        neg_spec(count_spec((-i) as nat))
    } else {
        count_spec(i as nat)
    }
}

/// The difference `a - b`, which binary64 arithmetic defines as `a + (-b)`.
pub open spec fn difference_spec(a: u64, b: u64) -> u64 {
    sum_spec(a, neg_spec(b))
}

/// Calls `SoftF64::add` of `const_soft_float` on the two patterns. The
/// contract only names the pattern that comes back.
#[verifier::external_body]
pub(crate) fn soft_sum(a: u64, b: u64) -> (r: u64)
    ensures
        r == sum_spec(a, b),
{
    SoftF64::from_bits(a).add(SoftF64::from_bits(b)).to_bits()
}

/// Calls `SoftF64::mul` of `const_soft_float` on the two patterns. The
/// contract only names the pattern that comes back.
#[verifier::external_body]
pub(crate) fn soft_product(a: u64, b: u64) -> (r: u64)
    ensures
        r == product_spec(a, b),
{
    SoftF64::from_bits(a).mul(SoftF64::from_bits(b)).to_bits()
}

/// Calls `SoftF64::div` of `const_soft_float` on the two patterns. The
/// contract only names the pattern that comes back.
#[verifier::external_body]
pub(crate) fn soft_quotient(a: u64, b: u64) -> (r: u64)
    ensures
        r == quotient_spec(a, b),
{
    SoftF64::from_bits(a).div(SoftF64::from_bits(b)).to_bits()
}

/// Calls `SoftF64::sqrt` of `const_soft_float` on the pattern. The contract
/// only names the pattern that comes back. Positive subnormal numbers are
/// left out: for some of them the outside function, where it brings the
/// digits of a subnormal up, shifts a `usize` by 32 places, which a target
/// with a `usize` of 32 bits does not take.
#[verifier::external_body]
pub(crate) fn soft_root(a: u64) -> (r: u64)
    requires
        !is_small_spec(a),
    ensures
        r == root_spec(a),
{
    SoftF64::from_bits(a).sqrt().to_bits()
}

/// The pattern of a positive subnormal number times `2^104`.
pub fn scaled_up(a: u64) -> (r: u64)
    requires
        is_small_spec(a),
    ensures
        r == scaled_up_spec(a),
        !is_small_spec(r),
        HIDDEN_BIT <= r < INFINITY,
{
    let mut digits: u64 = a;
    let mut exponent: u64 = 105;
    if digits < 0x20_0000 {
        digits = digits * 0x1_0000_0000;
        exponent = exponent - 32;
    }
    if digits < 0x20_0000_0000 {
        digits = digits * 0x1_0000;
        exponent = exponent - 16;
    }
    if digits < 0x2000_0000_0000 {
        digits = digits * 0x100;
        exponent = exponent - 8;
    }
    if digits < 0x2_0000_0000_0000 {
        digits = digits * 0x10;
        exponent = exponent - 4;
    }
    if digits < 0x8_0000_0000_0000 {
        digits = digits * 4;
        exponent = exponent - 2;
    }
    if digits < 0x10_0000_0000_0000 {
        digits = digits * 2;
        exponent = exponent - 1;
    }
    exponent * HIDDEN_BIT + (digits - HIDDEN_BIT)
}

/// The square root of a number.
pub fn root(a: u64) -> (r: u64)
    ensures
        r == sqrt_spec(a),
{
    if 0 < a && a < HIDDEN_BIT {
        soft_product(soft_root(scaled_up(a)), TWO_POW_MINUS_52)
    } else {
        soft_root(a)
    }
}

/// The largest whole number not above `a`, held to the range of `i32`; 0
/// for a NaN.
pub fn floor(a: u64) -> (r: i32)
    ensures
        r == floor_spec(a),
{
    let negative = a >= SIGN_BIT;
    let magnitude: u64 = if negative {
        a - SIGN_BIT
    } else {
        a
    };
    if magnitude > INFINITY {
        return 0;
    }
    let e: u64 = (a >> 52) & 0x7ff;
    assert(e <= 0x7ff) by (bit_vector)
        requires
            e == (a >> 52) & 0x7ff,
    ;
    if e < 1023 {
        return if negative && magnitude != 0 {
            -1
        } else {
            0
        };
    }
    if e >= 1054 {
        return if negative {
            i32::MIN
        } else {
            i32::MAX
        };
    }
    let significand: u64 = (a & SIGNIFICAND_MASK) | HIDDEN_BIT;
    let shift: u64 = 1075 - e;
    let whole: u64 = significand >> shift;
    assert(whole < 0x8000_0000) by (bit_vector)
        requires
            significand == (a & 0x000f_ffff_ffff_ffff) | 0x0010_0000_0000_0000,
            22 <= shift <= 52,
            whole == significand >> shift,
    ;
    if !negative {
        whole as i32
    } else if (whole << shift) != significand {
        -(whole as i32) - 1
    } else {
        -(whole as i32)
    }
}

/// The number `n`, built from its binary digits.
pub fn count(n: u64) -> (r: u64)
    ensures
        r == count_spec(n as nat),
    decreases n,
{
    if n == 0 {
        ZERO
    } else {
        let digit = if n % 2 == 1 {
            ONE
        } else {
            ZERO
        };
        soft_sum(soft_product(count(n / 2), TWO), digit)
    }
}

/// The number that equals the integer `i`.
pub fn whole(i: i32) -> (r: u64)
    ensures
        r == whole_spec(i),
{
    if i < 0 {
        neg(count((-(i as i64)) as u64))
    } else {
        count(i as u64)
    }
}

/// The number with its sign flipped.
pub fn neg(a: u64) -> (r: u64)
    ensures
        r == neg_spec(a),
        neg_spec(r) == a,
        magnitude(r) == magnitude(a),
{
    if a >= SIGN_BIT {
        a - SIGN_BIT
    } else {
        a + SIGN_BIT
    }
}

/// The difference `a - b`.
pub fn difference(a: u64, b: u64) -> (r: u64)
    ensures
        r == difference_spec(a, b),
{
    soft_sum(a, neg(b))
}

/// Compares two numbers as IEEE 754 does: NaNs are unordered, the two zeros
/// are equal.
pub fn compare(a: u64, b: u64) -> (r: FloatOrder)
    ensures
        r == order_spec(a, b),
{
    let a_neg = a >= SIGN_BIT;
    let b_neg = b >= SIGN_BIT;
    let a_mag: u64 = if a_neg { a - SIGN_BIT } else { a };
    let b_mag: u64 = if b_neg { b - SIGN_BIT } else { b };
    if a_mag > INFINITY || b_mag > INFINITY {
        FloatOrder::Unordered
    } else if a_mag == 0 && b_mag == 0 {
        FloatOrder::Equal
    } else if a_neg && !b_neg {
        FloatOrder::Less
    } else if !a_neg && b_neg {
        FloatOrder::Greater
    } else if a_mag == b_mag {
        FloatOrder::Equal
    } else if (a_mag < b_mag) != a_neg {
        FloatOrder::Less
    } else {
        FloatOrder::Greater
    }
}

/// Whether the number is zero, of either sign.
pub fn is_zero(a: u64) -> (r: bool)
    ensures
        r == is_zero_spec(a),
{
    a == 0 || a == SIGN_BIT
}

/// `a < b`; false when either is a NaN.
pub fn lt(a: u64, b: u64) -> (r: bool)
    ensures
        r == lt_spec(a, b),
{
    match compare(a, b) {
        FloatOrder::Less => true,
        _ => false,
    }
}

/// Whether `a` comes strictly before `b` in the total order of patterns.
pub fn total_lt(a: u64, b: u64) -> (r: bool)
    ensures
        r == (total_key(a) < total_key(b)),
{
    let a_neg = a >= SIGN_BIT;
    let b_neg = b >= SIGN_BIT;
    if a_neg && b_neg {
        a > b
    } else if a_neg {
        true
    } else if b_neg {
        false
    } else {
        a < b
    }
}

/// The total order of patterns is a strict total order: two patterns with
/// the same key are the same pattern.
pub proof fn lemma_total_key_injective(a: u64, b: u64)
    requires
        total_key(a) == total_key(b),
    ensures
        a == b,
{
}

/// `a` held to the range from `lo` to `hi`: `lo` when `a < lo`, `hi` when
/// `a > hi`, otherwise `a` itself (a NaN stays a NaN).
pub open spec fn clamp_spec(a: u64, lo: u64, hi: u64) -> u64 {
    if lt_spec(a, lo) {
        lo
    } else if lt_spec(hi, a) {
        hi
    } else {
        a
    }
}

/// Holds `a` to the range from `lo` to `hi`.
pub fn clamp(a: u64, lo: u64, hi: u64) -> (r: u64)
    ensures
        r == clamp_spec(a, lo, hi),
{
    if lt(a, lo) {
        lo
    } else if lt(hi, a) {
        hi
    } else {
        a
    }
}

} // verus!
