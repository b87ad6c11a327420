//! Fixed-point arithmetic shared by the indicator calculators.
//!
//! Prices, volumes and configuration fractions are carried as signed
//! integers scaled by [`SCALE`]: one unit stands for 1/10000 of the
//! external quantity.  Indicator values that range over 0..=100 (RSV, K,
//! D, STC) use the same factor, so the value 100.0 is stored as
//! `100 * SCALE`.  All divisions round toward zero, mirroring Rust's
//! built-in signed division.

use vstd::prelude::*;

verus! {

/// Fixed-point factor: one stored unit is 1/10000 of the external value.
pub const SCALE: i64 = 10_000;

/// Largest scaled price accepted by the calculators (100000.0 external).
pub const PRICE_MAX: i64 = 1_000_000_000;

/// Largest scaled volume accepted by the calculators.
pub const VOLUME_MAX: i64 = 10_000_000_000_000;

/// Largest smoothing period accepted by the calculators.
pub const PERIOD_MAX: usize = 1_000;

/// Largest candle history the calculators accept in one call.
pub const LEN_MAX: usize = 100_000;

/// The indicator value 50.0 (the neutral midpoint) in fixed point.
pub const VAL_FIFTY: i64 = 500_000;

/// The indicator value 100.0 in fixed point.
pub const VAL_HUNDRED: i64 = 1_000_000;

/// Magnitude bound on raw stochastic values and their smoothings:
/// `VAL_HUNDRED * PRICE_MAX`.
pub const VAL_BOUND: i64 = 1_000_000_000_000_000;

/// Magnitude of an integer.
pub open spec fn iabs(a: int) -> int {
    if a < 0 {
        -a
    } else {
        a
    }
}

/// Quotient of `a` and `b` rounded toward zero, the convention of Rust's
/// `/` on signed integers.  (`/` on `int` is Euclidean, which differs on
/// negative operands.)
pub open spec fn div_trunc(a: int, b: int) -> int {
    if a == 0 {
        0
    } else if a > 0 && b > 0 {
        a / b
    } else if a < 0 && b < 0 {
        (-a) / (-b)
    } else if a < 0 {
        -((-a) / b)
    } else {
        -(a / (-b))
    }
}

/// Truncating division never grows the magnitude and keeps the sign of
/// the dividend when the divisor is positive.
pub proof fn lemma_div_trunc_sign(a: int, b: int)
    requires
        b >= 1,
    ensures
        a >= 0 ==> 0 <= div_trunc(a, b) <= a,
        a <= 0 ==> a <= div_trunc(a, b) <= 0,
{
    if a > 0 {
        vstd::arithmetic::div_mod::lemma_div_pos_is_pos(a, b);
        vstd::arithmetic::div_mod::lemma_div_nonincreasing(a, b);
    } else if a < 0 {
        vstd::arithmetic::div_mod::lemma_div_pos_is_pos(-a, b);
        vstd::arithmetic::div_mod::lemma_div_nonincreasing(-a, b);
    }
}

/// If the dividend is at most `m` times the divisor in magnitude, the
/// truncated quotient is at most `m` in magnitude.
pub proof fn lemma_div_trunc_abs_le(a: int, b: int, m: int)
    requires
        b >= 1,
        m >= 0,
        iabs(a) <= m * b,
    ensures
        iabs(div_trunc(a, b)) <= m,
{
    vstd::arithmetic::mul::lemma_mul_is_commutative(m, b);
    if a > 0 {
        vstd::arithmetic::div_mod::lemma_div_pos_is_pos(a, b);
        vstd::arithmetic::div_mod::lemma_multiply_divide_le(a, b, m);
    } else if a < 0 {
        vstd::arithmetic::div_mod::lemma_div_pos_is_pos(-a, b);
        vstd::arithmetic::div_mod::lemma_multiply_divide_le(-a, b, m);
    }
}

/// Truncating division never grows the magnitude, whatever the sign of
/// the divisor.
pub proof fn lemma_div_trunc_abs_le_num(a: int, b: int)
    requires
        b != 0,
    ensures
        iabs(div_trunc(a, b)) <= iabs(a),
{
    let bb = if b < 0 {
        -b
    } else {
        b
    };
    lemma_mul_le_self(iabs(a), bb);
    lemma_div_trunc_abs_le(a, bb, iabs(a));
}

/// The magnitude of a product is the product of the magnitudes.
pub proof fn lemma_abs_mul(a: int, b: int)
    ensures
        iabs(a * b) == iabs(a) * iabs(b),
{
    if a >= 0 && b >= 0 {
        vstd::arithmetic::mul::lemma_mul_nonnegative(a, b);
    } else if a < 0 && b >= 0 {
        vstd::arithmetic::mul::lemma_mul_nonnegative(-a, b);
        vstd::arithmetic::mul::lemma_mul_unary_negation(a, b);
    } else if a >= 0 && b < 0 {
        vstd::arithmetic::mul::lemma_mul_nonnegative(a, -b);
        vstd::arithmetic::mul::lemma_mul_unary_negation(b, a);
        vstd::arithmetic::mul::lemma_mul_is_commutative(a, b);
        vstd::arithmetic::mul::lemma_mul_is_commutative(a, -b);
    } else {
        vstd::arithmetic::mul::lemma_mul_nonnegative(-a, -b);
        vstd::arithmetic::mul::lemma_mul_unary_negation(a, b);
        vstd::arithmetic::mul::lemma_mul_unary_negation(-a, b);
    }
}

/// Scaling a bounded value by a non-negative factor scales the bound.
pub proof fn lemma_mul_abs_bound(f: int, k: int, m: int)
    requires
        f >= 0,
        iabs(k) <= m,
    ensures
        iabs(f * k) <= f * m,
{
    lemma_abs_mul(f, k);
    vstd::arithmetic::mul::lemma_mul_inequality(iabs(k), m, f);
    vstd::arithmetic::mul::lemma_mul_is_commutative(f, iabs(k));
    vstd::arithmetic::mul::lemma_mul_is_commutative(f, m);
}

/// The truncated quotient stays inside a symmetric machine range
/// `[lo, hi]` with `lo == -(hi + 1)`, except for `lo / -1`.
pub proof fn lemma_div_trunc_fits(a: int, b: int, lo: int, hi: int)
    requires
        b != 0,
        lo < 0 < hi,
        -lo == hi + 1,
        lo <= a <= hi,
        !(a == lo && b == -1),
    ensures
        lo <= div_trunc(a, b) <= hi,
{
    if b >= 1 {
        lemma_div_trunc_sign(a, b);
    } else {
        lemma_div_trunc_sign(a, -b);
        if a == lo {
            vstd::arithmetic::div_mod::lemma_div_is_ordered_by_denominator(-a, 2, -b);
        }
    }
}

/// Truncating division of `i64` values.  The lone excluded operand pair
/// is the one whose quotient does not fit.
pub fn div_i64(a: i64, b: i64) -> (r: i64)
    requires
        b != 0,
        !(a == i64::MIN && b == -1),
    ensures
        r == div_trunc(a as int, b as int),
{
    proof {
        lemma_div_trunc_fits(a as int, b as int, i64::MIN as int, i64::MAX as int);
    }
    match a.checked_div(b) {
        Some(q) => q,
        None => 0,
    }
}

/// Truncating division of `i128` values, used for the volume-weighted
/// accumulators whose sums outgrow `i64`.
pub fn div_i128(a: i128, b: i128) -> (r: i128)
    requires
        b != 0,
        !(a == i128::MIN && b == -1),
    ensures
        r == div_trunc(a as int, b as int),
{
    proof {
        lemma_div_trunc_fits(a as int, b as int, i128::MIN as int, i128::MAX as int);
    }
    match a.checked_div(b) {
        Some(q) => q,
        None => 0,
    }
}

/// A non-negative value is at most itself times a positive factor.
proof fn lemma_mul_le_self(m: int, b: int)
    requires
        m >= 0,
        b >= 1,
    ensures
        m <= m * b,
{
    vstd::arithmetic::mul::lemma_mul_inequality(1, b, m);
    vstd::arithmetic::mul::lemma_mul_is_commutative(m, b);
}

} // verus!
