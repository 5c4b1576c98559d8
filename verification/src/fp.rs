//! Signed fixed-point arithmetic.
//!
//! Signal and control values carry a 16-bit fraction: a value `v` is the
//! `i64` holding `v * ONE` with `ONE = 65536`. Filter coefficients carry a
//! 30-bit fraction (`CS = 2^30`): at audio rates the Butterworth design
//! produces coefficients around `10^-4`, which a 16-bit fraction would
//! quantize too coarsely to keep the response honest.
//!
//! Every operation reduces to one truncating scaled product
//! `mdt(a, b, d) = a * b / d`, rounded toward zero, computed on unsigned
//! magnitudes in 128-bit intermediates so it can neither overflow nor round
//! away from zero.

use vstd::prelude::*;
use vstd::arithmetic::mul::lemma_mul_upper_bound;
use vstd::arithmetic::mul::lemma_mul_inequality;
use vstd::arithmetic::mul::lemma_mul_nonnegative;
use vstd::arithmetic::div_mod::lemma_div_is_ordered;
use vstd::arithmetic::div_mod::lemma_div_pos_is_pos;
use vstd::arithmetic::div_mod::lemma_div_multiples_vanish;
use vstd::arithmetic::div_mod::lemma_div_of0;

verus! {

/// One with a 16-bit fraction: the scale of samples and control values.
pub const ONE: i64 = 65536;

/// Ten in sample scale: the hard clamp bound that guards every audio sample.
pub const TEN: i64 = 655360;

/// One with a 30-bit fraction: the scale of filter coefficients.
pub const CS: i64 = 0x4000_0000;

/// Largest operand magnitude the scaled products accept (2^39): far above
/// any value the pipeline produces, yet small enough that no intermediate
/// can overflow.
pub const FMAX: i64 = 0x80_0000_0000;

/// Magnitude of `x`.
pub open spec fn abs_s(x: int) -> int {
    if x < 0 {
        -x
    } else {
        x
    }
}

/// `x` clamped into `[lo, hi]`.
pub open spec fn clamp_s(x: int, lo: int, hi: int) -> int {
    if x < lo {
        lo
    } else if x > hi {
        hi
    } else {
        x
    }
}

/// The truncating scaled product `a * b / d`, rounded toward zero.
pub open spec fn mdt_s(a: int, b: int, d: int) -> int {
    if a * b >= 0 {
        (a * b) / d
    } else {
        -((-(a * b)) / d)
    }
}

/// Product of sample-scale values.
pub open spec fn fp_mul_s(a: int, b: int) -> int {
    mdt_s(a, b, ONE as int)
}

/// Quotient of sample-scale values; only for `b > 0`.
pub open spec fn fp_div_s(a: int, b: int) -> int {
    mdt_s(a, ONE as int, b)
}

/// Product of two coefficient-scale values, or of a coefficient-scale value
/// with a sample-scale one (which stays at sample scale).
pub open spec fn cs_mul_s(a: int, b: int) -> int {
    mdt_s(a, b, CS as int)
}

/// Quotient of coefficient-scale values; only for `b > 0`.
pub open spec fn cs_div_s(a: int, b: int) -> int {
    mdt_s(a, CS as int, b)
}

/// The magnitude of a product is the product of the magnitudes, and the
/// product is nonnegative exactly when the signs agree.
proof fn lemma_abs_mul(a: int, b: int)
    by (nonlinear_arith)
    ensures
        abs_s(a * b) == abs_s(a) * abs_s(b),
        (a * b >= 0) <==> ((a >= 0 && b >= 0) || (a <= 0 && b <= 0)),
{
}

/// Truncation toward zero commutes with the magnitude.
pub proof fn lemma_mdt_abs(a: int, b: int, d: int)
    requires
        1 <= d,
    ensures
        abs_s(mdt_s(a, b, d)) == abs_s(a * b) / d,
{
    lemma_abs_mul(a, b);
    if a * b >= 0 {
        lemma_div_pos_is_pos(a * b, d);
    } else {
        lemma_div_pos_is_pos(-(a * b), d);
    }
}

/// Bounds on the operands bound the scaled product.
pub proof fn lemma_mdt_le(a: int, b: int, d: int, ab: int, bb: int)
    requires
        1 <= d,
        abs_s(a) <= ab,
        abs_s(b) <= bb,
    ensures
        abs_s(mdt_s(a, b, d)) <= (ab * bb) / d,
{
    lemma_abs_mul(a, b);
    lemma_mdt_abs(a, b, d);
    lemma_mul_upper_bound(abs_s(a), ab, abs_s(b), bb);
    lemma_div_is_ordered(abs_s(a) * abs_s(b), ab * bb, d);
}

/// A zero factor gives a zero product.
pub proof fn lemma_mdt_zero(a: int, b: int, d: int)
    requires
        1 <= d,
        a == 0 || b == 0,
    ensures
        mdt_s(a, b, d) == 0,
{
    assert(a * b == 0) by (nonlinear_arith)
        requires
            a == 0 || b == 0,
    ;
    lemma_div_of0(d);
}

/// Nonnegative factors give a nonnegative product.
pub proof fn lemma_mdt_nonneg(a: int, b: int, d: int)
    requires
        1 <= d,
        a >= 0,
        b >= 0,
    ensures
        mdt_s(a, b, d) >= 0,
{
    lemma_mul_nonnegative(a, b);
    lemma_div_pos_is_pos(a * b, d);
}

/// A square gives a nonnegative product.
pub proof fn lemma_mdt_square_nonneg(a: int, d: int)
    requires
        1 <= d,
    ensures
        mdt_s(a, a, d) >= 0,
{
    assert(a * a >= 0) by (nonlinear_arith);
    lemma_div_pos_is_pos(a * a, d);
}

/// A quotient shrinks when the denominator is at least the scale, and is
/// bounded by the scale times the numerator-to-denominator ratio in general.
pub proof fn lemma_mdt_div_le(a: int, s: int, b: int)
    requires
        1 <= s,
        1 <= b,
        abs_s(a) <= 16 * b,
    ensures
        abs_s(mdt_s(a, s, b)) == (abs_s(a) * s) / b,
        abs_s(mdt_s(a, s, b)) <= 16 * s,
        b >= s ==> abs_s(mdt_s(a, s, b)) <= abs_s(a),
{
    lemma_mdt_abs(a, s, b);
    lemma_abs_mul(a, s);
    lemma_mul_inequality(abs_s(a), 16 * b, s);
    assert((16 * b) * s == (16 * s) * b) by (nonlinear_arith);
    lemma_div_is_ordered(abs_s(a) * s, (16 * s) * b, b);
    lemma_div_multiples_vanish(16 * s, b);
    if b >= s {
        lemma_mul_inequality(s, b, abs_s(a));
        assert(s * abs_s(a) == abs_s(a) * s && b * abs_s(a) == abs_s(a) * b)
            by (nonlinear_arith);
        lemma_div_is_ordered(abs_s(a) * s, abs_s(a) * b, b);
        lemma_div_multiples_vanish(abs_s(a), b);
    }
}

/// The scaled product is within one truncation step of the exact rational
/// value: `|d * mdt(n, s, d) - n * s| < d`.
pub proof fn lemma_mdt_err(n: int, s: int, d: int)
    requires
        1 <= d,
        1 <= s,
    ensures
        abs_s(d * mdt_s(n, s, d) - n * s) < d,
{
    let q = mdt_s(n, s, d);
    lemma_mdt_abs(n, s, d);
    lemma_abs_mul(n, s);
    let a = abs_s(n) * s;
    lemma_mul_nonnegative(abs_s(n), s);
    vstd::arithmetic::div_mod::lemma_fundamental_div_mod(a, d);
    vstd::arithmetic::div_mod::lemma_mod_division_less_than_divisor(a, d);
    if n >= 0 {
        assert(n * s == a);
        assert(q == a / d);
        assert(d * q - n * s == -(a % d));
    } else {
        assert(n * s == -a) by (nonlinear_arith)
            requires
                n < 0,
                1 <= s,
                a == abs_s(n) * s,
                abs_s(n) == -n,
        ;
        assert(q == -(a / d));
        assert(d * (-(a / d)) == -(d * (a / d))) by (nonlinear_arith);
        assert(d * q - n * s == a % d);
    }
}

/// `x` clamped into `[lo, hi]`.
pub fn clamp_i(x: i64, lo: i64, hi: i64) -> (r: i64)
    requires
        lo <= hi,
    ensures
        r == clamp_s(x as int, lo as int, hi as int),
{
    if x < lo {
        lo
    } else if x > hi {
        hi
    } else {
        x
    }
}

/// The truncating scaled product, exact per `mdt_s`: computed on unsigned
/// magnitudes so that truncation is always toward zero.
fn mdt(a: i64, b: i64, d: i64) -> (r: i64)
    requires
        -FMAX <= a <= FMAX,
        -FMAX <= b <= FMAX,
        1 <= d,
        abs_s(a as int) * abs_s(b as int) <= d * 0x4000_0000_0000_0000,
    ensures
        r == mdt_s(a as int, b as int, d as int),
        abs_s(r as int) == abs_s((a as int) * (b as int)) / (d as int),
        a == 0 ==> r == 0,
        b == 0 ==> r == 0,
{
    let neg: bool = (a < 0) != (b < 0);
    let ma: u64 = if a < 0 { (-a) as u64 } else { a as u64 };
    let mb: u64 = if b < 0 { (-b) as u64 } else { b as u64 };
    proof {
        assert(ma as int == abs_s(a as int));
        assert(mb as int == abs_s(b as int));
        lemma_mul_upper_bound(ma as int, FMAX as int, mb as int, FMAX as int);
    }
    let p: u128 = (ma as u128) * (mb as u128);
    let q: u128 = p / (d as u128);
    proof {
        lemma_abs_mul(a as int, b as int);
        assert(p as int == abs_s((a as int) * (b as int)));
        lemma_div_is_ordered(p as int, (d as int) * 0x4000_0000_0000_0000, d as int);
        lemma_div_multiples_vanish(0x4000_0000_0000_0000, d as int);
        assert(q as int == abs_s((a as int) * (b as int)) / (d as int));
        assert(q <= 0x4000_0000_0000_0000u128);
    }
    let qi: i64 = q as i64;
    let r: i64 = if neg { -qi } else { qi };
    proof {
        lemma_mdt_abs(a as int, b as int, d as int);
        if a == 0 || b == 0 {
            lemma_mdt_zero(a as int, b as int, d as int);
        }
        if (a as int) * (b as int) >= 0 {
            if neg {
                assert(a == 0 || b == 0);
                assert((a as int) * (b as int) == 0) by (nonlinear_arith)
                    requires
                        a == 0 || b == 0,
                ;
                assert(p == 0);
            }
            assert(r == q);
            assert(mdt_s(a as int, b as int, d as int) == q);
        } else {
            assert(neg);
            assert(-((a as int) * (b as int)) == p as int);
            assert(mdt_s(a as int, b as int, d as int) == -(q as int));
        }
    }
    r
}

/// Sample-scale multiply, exact per `fp_mul_s`.
pub fn fp_mul(a: i64, b: i64) -> (r: i64)
    requires
        -FMAX <= a <= FMAX,
        -FMAX <= b <= FMAX,
    ensures
        r == fp_mul_s(a as int, b as int),
        abs_s(r as int) == abs_s((a as int) * (b as int)) / (ONE as int),
        a == 0 ==> r == 0,
        b == 0 ==> r == 0,
{
    proof {
        lemma_mul_upper_bound(abs_s(a as int), FMAX as int, abs_s(b as int), FMAX as int);
    }
    mdt(a, b, ONE)
}

/// Coefficient-scale multiply, exact per `cs_mul_s`.
pub fn cs_mul(a: i64, b: i64) -> (r: i64)
    requires
        -FMAX <= a <= FMAX,
        -FMAX <= b <= FMAX,
    ensures
        r == cs_mul_s(a as int, b as int),
        abs_s(r as int) == abs_s((a as int) * (b as int)) / (CS as int),
        a == 0 ==> r == 0,
        b == 0 ==> r == 0,
{
    proof {
        lemma_mul_upper_bound(abs_s(a as int), FMAX as int, abs_s(b as int), FMAX as int);
    }
    mdt(a, b, CS)
}

/// Sample-scale divide, exact per `fp_div_s`. The denominator must be
/// positive and, against its magnitude, the numerator at most sixteenfold.
pub fn fp_div(a: i64, b: i64) -> (r: i64)
    requires
        -FMAX <= a <= FMAX,
        1 <= b,
        abs_s(a as int) <= 16 * b,
    ensures
        r == fp_div_s(a as int, b as int),
        abs_s(r as int) == (abs_s(a as int) * ONE) / (b as int),
        abs_s(r as int) <= 16 * ONE,
        b >= ONE ==> abs_s(r as int) <= abs_s(a as int),
{
    proof {
        lemma_mdt_div_le(a as int, ONE as int, b as int);
        lemma_abs_mul(a as int, ONE as int);
        lemma_mul_inequality(abs_s(a as int), 16 * (b as int), ONE as int);
        assert((16 * (b as int)) * (ONE as int) == (b as int) * (16 * (ONE as int)))
            by (nonlinear_arith);
    }
    mdt(a, ONE, b)
}

/// Coefficient-scale divide, exact per `cs_div_s`, under the same shape of
/// precondition as `fp_div`.
pub fn cs_div(a: i64, b: i64) -> (r: i64)
    requires
        -FMAX <= a <= FMAX,
        1 <= b,
        abs_s(a as int) <= 16 * b,
    ensures
        r == cs_div_s(a as int, b as int),
        abs_s(r as int) == (abs_s(a as int) * CS) / (b as int),
        abs_s(r as int) <= 16 * CS,
        b >= CS ==> abs_s(r as int) <= abs_s(a as int),
{
    proof {
        lemma_mdt_div_le(a as int, CS as int, b as int);
        lemma_abs_mul(a as int, CS as int);
        lemma_mul_inequality(abs_s(a as int), 16 * (b as int), CS as int);
        assert((16 * (b as int)) * (CS as int) == (b as int) * (16 * (CS as int)))
            by (nonlinear_arith);
    }
    mdt(a, CS, b)
}

/// Bounds on the operands bound the sample-scale product.
pub proof fn lemma_fp_mul_le(a: int, b: int, ab: int, bb: int)
    requires
        abs_s(a) <= ab,
        abs_s(b) <= bb,
    ensures
        abs_s(fp_mul_s(a, b)) <= (ab * bb) / (ONE as int),
{
    lemma_mdt_le(a, b, ONE as int, ab, bb);
}

/// Bounds on the operands bound the coefficient-scale product.
pub proof fn lemma_cs_mul_le(a: int, b: int, ab: int, bb: int)
    requires
        abs_s(a) <= ab,
        abs_s(b) <= bb,
    ensures
        abs_s(cs_mul_s(a, b)) <= (ab * bb) / (CS as int),
{
    lemma_mdt_le(a, b, CS as int, ab, bb);
}

/// Multiplying by zero gives zero, at either scale.
pub proof fn lemma_fp_mul_zero(a: int, b: int)
    requires
        a == 0 || b == 0,
    ensures
        fp_mul_s(a, b) == 0,
{
    lemma_mdt_zero(a, b, ONE as int);
}

/// Multiplying by zero gives zero, at coefficient scale.
pub proof fn lemma_cs_mul_zero(a: int, b: int)
    requires
        a == 0 || b == 0,
    ensures
        cs_mul_s(a, b) == 0,
{
    lemma_mdt_zero(a, b, CS as int);
}

} // verus!
