//! Butterworth second-order coefficient builder.
//!
//! `build_coeffs` turns a filter kind, a cutoff frequency and a sample rate
//! (both in sample-scale fixed-point hertz) into the five coefficients of a
//! biquad section with the Butterworth quality factor `1 / sqrt(2)`,
//! following the standard bilinear-transform design equations. Coefficients
//! come out at coefficient scale (`CS`, a 30-bit fraction). The sine and
//! cosine of the digital frequency are computed with Bhaskara-style rational
//! approximations, so the whole design stays in exact integer arithmetic and
//! is a pure function of its arguments.
//!
//! A cutoff at or above the Nyquist frequency, or at or below zero, would
//! make the design equations meaningless; instead of failing inside the
//! real-time path the builder clamps the cutoff into `[1 Hz, 0.49 * rate]`
//! first, as the parameter-validation policy of the pipeline demands.

use vstd::prelude::*;
use crate::fp::ONE;
use crate::fp::CS;
use crate::fp::abs_s;
use crate::fp::clamp_s;
use crate::fp::clamp_i;
use crate::fp::fp_mul_s;
use crate::fp::cs_mul_s;
use crate::fp::cs_div_s;
use crate::fp::fp_mul;
use crate::fp::cs_mul;
use crate::fp::cs_div;
use crate::fp::lemma_cs_mul_le;
use crate::fp::lemma_mdt_nonneg;
use crate::fp::lemma_mdt_square_nonneg;
use crate::fp::lemma_mdt_div_le;
use vstd::arithmetic::mul::lemma_mul_inequality;
use vstd::arithmetic::div_mod::lemma_div_is_ordered;
use vstd::arithmetic::div_mod::lemma_div_multiples_vanish;

verus! {

/// Pi at coefficient scale.
pub const PI_CS: i64 = 3373259426;

/// Pi / 2 at coefficient scale.
pub const HALF_PI_CS: i64 = 1686629713;

/// 2 * pi at coefficient scale.
pub const TWO_PI_CS: i64 = 6746518852;

/// Pi squared at coefficient scale.
pub const PI2_CS: i64 = 10597407032;

/// 5 * pi squared at coefficient scale.
pub const FIVE_PI2_CS: i64 = 52987035159;

/// 1 / sqrt(2) at coefficient scale: the Butterworth quality factor.
pub const INV_SQRT2_CS: i64 = 759250125;

/// 0.49 at sample scale: cutoffs are clamped below `0.49 * rate`, just under
/// the Nyquist frequency.
pub const K049: i64 = 32113;

/// Magnitude cap for every normalized coefficient (four in real terms).
pub const CMAX: i64 = 0x1_0000_0000;

/// Lowest accepted sample rate, 4 Hz at sample scale: keeps the clamped
/// cutoff interval non-empty.
pub const RATE_MIN: i64 = 262144;

/// Highest accepted sample rate, about 2.1 MHz at sample scale: keeps every
/// intermediate product inside the fixed-point multiplier's range.
pub const RATE_MAX: i64 = 0x20_0000_0000;

/// The two filter roles the bank builds.
#[derive(Clone, Copy, PartialEq, Eq, Structural, Debug)]
pub enum FilterKind {
    LowPass,
    HighPass,
}

/// One set of normalized biquad coefficients, at coefficient scale.
#[derive(Clone, Copy, PartialEq, Eq, Structural, Debug)]
pub struct Coeffs {
    pub b0: i64,
    pub b1: i64,
    pub b2: i64,
    pub a1: i64,
    pub a2: i64,
}

/// Mathematical image of `Coeffs`.
pub struct CoeffsModel {
    pub b0: int,
    pub b1: int,
    pub b2: int,
    pub a1: int,
    pub a2: int,
}

impl View for Coeffs {
    type V = CoeffsModel;

    open spec fn view(&self) -> CoeffsModel {
        CoeffsModel {
            b0: self.b0 as int,
            b1: self.b1 as int,
            b2: self.b2 as int,
            a1: self.a1 as int,
            a2: self.a2 as int,
        }
    }
}

/// Every coefficient stays within the cap the filter stages rely on.
pub open spec fn coeffs_wf(c: CoeffsModel) -> bool {
    &&& abs_s(c.b0) <= CMAX
    &&& abs_s(c.b1) <= CMAX
    &&& abs_s(c.b2) <= CMAX
    &&& abs_s(c.a1) <= CMAX
    &&& abs_s(c.a2) <= CMAX
}

/// Sine on `[0, pi]` by the Bhaskara rational approximation,
/// `16 x (pi - x) / (5 pi^2 - 4 x (pi - x))`, clamped into `[0, CS]`.
pub open spec fn sin_s(x: int) -> int {
    let u = cs_mul_s(x, PI_CS - x);
    clamp_s(cs_div_s(16 * u, FIVE_PI2_CS - 4 * u), 0, CS as int)
}

/// Cosine on `[0, pi/2]` by the rational approximation
/// `(pi^2 - 4 x^2) / (pi^2 + x^2)`, clamped into `[0, CS]`.
pub open spec fn cos_half_s(t: int) -> int {
    let t2 = cs_mul_s(t, t);
    let num = if 4 * t2 >= PI2_CS { 0 } else { PI2_CS - 4 * t2 };
    clamp_s(cs_div_s(num, PI2_CS + t2), 0, CS as int)
}

/// Cosine on `[0, pi]`, folded onto the first quadrant by symmetry.
pub open spec fn cos_s(x: int) -> int {
    if x <= HALF_PI_CS {
        cos_half_s(x)
    } else {
        -cos_half_s(PI_CS - x)
    }
}

/// The digital frequency `2 pi * cutoff / rate` of a cutoff at coefficient
/// scale, after the cutoff is clamped into `[1 Hz, 0.49 * rate]`; the result
/// is clamped once more into `(0, pi]` as a final guard.
pub open spec fn omega_spec(fc: int, rate: int) -> int {
    let hi = fp_mul_s(rate, K049 as int);
    let fcc = clamp_s(fc, ONE as int, hi);
    clamp_s(cs_mul_s(TWO_PI_CS as int, cs_div_s(fcc, rate)), 1, PI_CS as int)
}

/// The full Butterworth design: what `build_coeffs` returns.
pub open spec fn coeff_spec(kind: FilterKind, fc: int, rate: int) -> CoeffsModel {
    let om = omega_spec(fc, rate);
    let s = sin_s(om);
    let c = cos_s(om);
    let alpha = cs_mul_s(s, INV_SQRT2_CS as int);
    let a0 = CS + alpha;
    let a1 = -cs_div_s(c + c, a0);
    let a2 = cs_div_s(CS - alpha, a0);
    match kind {
        FilterKind::LowPass => {
            let p = CS - c;
            CoeffsModel {
                b0: cs_div_s(p, a0 + a0),
                b1: cs_div_s(p, a0),
                b2: cs_div_s(p, a0 + a0),
                a1: a1,
                a2: a2,
            }
        },
        FilterKind::HighPass => {
            let p = CS + c;
            CoeffsModel {
                b0: cs_div_s(p, a0 + a0),
                b1: -cs_div_s(p, a0),
                b2: cs_div_s(p, a0 + a0),
                a1: a1,
                a2: a2,
            }
        },
    }
}

/// The sine approximation stays within `[0, CS]`.
pub proof fn lemma_sin_s_range(x: int)
    ensures
        0 <= sin_s(x) <= CS,
{
}

/// The cosine approximation stays within `[-CS, CS]`.
pub proof fn lemma_cos_s_range(x: int)
    ensures
        -CS <= cos_s(x) <= CS,
{
}

/// The design always yields well-formed coefficients: each normalized value
/// has magnitude at most `2 * CS`, well under the cap.
pub proof fn lemma_coeff_spec_wf(kind: FilterKind, fc: int, rate: int)
    ensures
        coeffs_wf(coeff_spec(kind, fc, rate)),
{
    let om = omega_spec(fc, rate);
    let s = sin_s(om);
    let c = cos_s(om);
    lemma_sin_s_range(om);
    lemma_cos_s_range(om);
    let alpha = cs_mul_s(s, INV_SQRT2_CS as int);
    lemma_mdt_nonneg(s, INV_SQRT2_CS as int, CS as int);
    lemma_cs_mul_le(s, INV_SQRT2_CS as int, CS as int, INV_SQRT2_CS as int);
    let a0 = CS + alpha;
    assert(CS <= a0 <= CS + INV_SQRT2_CS);
    lemma_mdt_div_le(c + c, CS as int, a0);
    lemma_mdt_div_le(CS - alpha, CS as int, a0);
    lemma_mdt_div_le(CS - c, CS as int, a0);
    lemma_mdt_div_le(CS + c, CS as int, a0);
    lemma_mdt_div_le(CS - c, CS as int, a0 + a0);
    lemma_mdt_div_le(CS + c, CS as int, a0 + a0);
}

/// Fixed-point sine on `[0, pi]`, exact per `sin_s`.
pub fn sin_fp(x: i64) -> (r: i64)
    requires
        0 <= x <= PI_CS,
    ensures
        r == sin_s(x as int),
        0 <= r <= CS,
{
    let u = cs_mul(x, PI_CS - x);
    proof {
        lemma_mdt_nonneg(x as int, (PI_CS - x) as int, CS as int);
        lemma_cs_mul_le(x as int, (PI_CS - x) as int, PI_CS as int, PI_CS as int);
        assert(0 <= u <= ((PI_CS as int) * (PI_CS as int)) / (CS as int));
    }
    let num: i64 = 16 * u;
    let den: i64 = FIVE_PI2_CS - 4 * u;
    let s0 = cs_div(num, den);
    clamp_i(s0, 0, CS)
}

/// Fixed-point cosine on `[0, pi/2]`, exact per `cos_half_s`.
fn cos_half_fp(t: i64) -> (r: i64)
    requires
        0 <= t <= HALF_PI_CS,
    ensures
        r == cos_half_s(t as int),
        0 <= r <= CS,
{
    let t2 = cs_mul(t, t);
    proof {
        lemma_mdt_square_nonneg(t as int, CS as int);
        lemma_cs_mul_le(t as int, t as int, HALF_PI_CS as int, HALF_PI_CS as int);
        assert(0 <= t2 <= ((HALF_PI_CS as int) * (HALF_PI_CS as int)) / (CS as int));
    }
    let num: i64 = if 4 * t2 >= PI2_CS { 0 } else { PI2_CS - 4 * t2 };
    let den: i64 = PI2_CS + t2;
    let c0 = cs_div(num, den);
    clamp_i(c0, 0, CS)
}

/// Fixed-point cosine on `[0, pi]`, exact per `cos_s`.
pub fn cos_fp(x: i64) -> (r: i64)
    requires
        0 <= x <= PI_CS,
    ensures
        r == cos_s(x as int),
        -CS <= r <= CS,
{
    if x <= HALF_PI_CS {
        cos_half_fp(x)
    } else {
        let c = cos_half_fp(PI_CS - x);
        -c
    }
}

/// The clamped digital frequency of a cutoff, exact per `omega_spec`.
fn omega_of(fc: i64, rate: i64) -> (om: i64)
    requires
        RATE_MIN <= rate <= RATE_MAX,
    ensures
        om == omega_spec(fc as int, rate as int),
        1 <= om <= PI_CS,
{
    let hi = fp_mul(rate, K049);
    proof {
        lemma_mdt_nonneg(rate as int, K049 as int, ONE as int);
        lemma_mul_inequality(RATE_MIN as int, rate as int, K049 as int);
        lemma_div_is_ordered(
            (RATE_MIN as int) * (K049 as int),
            (rate as int) * (K049 as int),
            ONE as int,
        );
        assert(hi >= ((RATE_MIN as int) * (K049 as int)) / (ONE as int));
        lemma_mul_inequality(K049 as int, ONE as int, rate as int);
        assert((rate as int) * (K049 as int) == (K049 as int) * (rate as int)
            && (rate as int) * (ONE as int) == (ONE as int) * (rate as int))
            by (nonlinear_arith);
        lemma_div_is_ordered(
            (rate as int) * (K049 as int),
            (rate as int) * (ONE as int),
            ONE as int,
        );
        lemma_div_multiples_vanish(rate as int, ONE as int);
        assert(hi <= rate);
    }
    let fcc = clamp_i(fc, ONE, hi);
    let ratio = cs_div(fcc, rate);
    let om0 = cs_mul(TWO_PI_CS, ratio);
    proof {
        lemma_cs_mul_le(TWO_PI_CS as int, ratio as int, TWO_PI_CS as int, 16 * (CS as int));
    }
    clamp_i(om0, 1, PI_CS)
}

/// Build the normalized Butterworth coefficients for one filter role.
///
/// The result is a pure function of the three arguments, stated exactly by
/// `coeff_spec`: building twice from the same cutoff and rate gives
/// bit-identical coefficients.
pub fn build_coeffs(kind: FilterKind, fc: i64, rate: i64) -> (c: Coeffs)
    requires
        RATE_MIN <= rate <= RATE_MAX,
    ensures
        c@ == coeff_spec(kind, fc as int, rate as int),
        coeffs_wf(c@),
{
    proof {
        lemma_coeff_spec_wf(kind, fc as int, rate as int);
    }
    let om = omega_of(fc, rate);
    let s = sin_fp(om);
    let c = cos_fp(om);
    let alpha = cs_mul(s, INV_SQRT2_CS);
    proof {
        lemma_mdt_nonneg(s as int, INV_SQRT2_CS as int, CS as int);
        lemma_cs_mul_le(s as int, INV_SQRT2_CS as int, CS as int, INV_SQRT2_CS as int);
    }
    let a0 = CS + alpha;
    let t1 = cs_div(c + c, a0);
    let a1 = -t1;
    let a2 = cs_div(CS - alpha, a0);
    match kind {
        FilterKind::LowPass => {
            let p = CS - c;
            let b0 = cs_div(p, a0 + a0);
            let b1 = cs_div(p, a0);
            Coeffs { b0: b0, b1: b1, b2: b0, a1: a1, a2: a2 }
        },
        FilterKind::HighPass => {
            let p = CS + c;
            let b0 = cs_div(p, a0 + a0);
            let t2 = cs_div(p, a0);
            let b1 = -t2;
            Coeffs { b0: b0, b1: b1, b2: b0, a1: a1, a2: a2 }
        },
    }
}

} // verus!
