//! Nonlinear saturator: synthesizes harmonics from the band-limited signal.
//!
//! The waveshaper blends a symmetric saturating term (which generates odd,
//! mainly third, harmonics) with a term gated to the nonnegative half-cycle
//! (whose asymmetry generates even, mainly second, harmonics). Each term is a
//! saturating sigmoid scaled by `pi / (1 + e)`, so before the final hard clamp
//! the output magnitude never exceeds `pi / (1 + e)` per term; the hard clamp
//! to ten times full scale then bounds it whatever the parameters are.
//!
//! The sigmoid is the rational tanh approximation
//! `z * (27 + z^2) / (27 + 9 z^2)`, saturated to one beyond `|z| = 4`: a
//! bounded odd shape that avoids hard clipping as the drive grows.

use vstd::prelude::*;
use crate::fp::ONE;
use crate::fp::TEN;
use crate::fp::abs_s;
use crate::fp::clamp_s;
use crate::fp::clamp_i;
use crate::fp::fp_mul_s;
use crate::fp::fp_div_s;
use crate::fp::fp_mul;
use crate::fp::fp_div;
use crate::fp::lemma_fp_mul_le;
use crate::fp::lemma_fp_mul_zero;
use crate::params::ControlParams;
use crate::params::ParamsModel;
use crate::stage::GMAX;

verus! {

/// `pi / (1 + e)` in fixed point: the normalization of each harmonic term.
pub const SAT_NORM: i64 = 55372;

/// Magnitude cap on the saturator drive gains (1024 in real terms): incoming
/// control values are clamped here so that no drive product can overflow.
pub const GAIN_MAX: i64 = 0x400_0000;

/// Four in fixed point: beyond this drive the sigmoid is saturated to one.
pub const Z4: i64 = 262144;

/// Twenty-seven in fixed point: the constant of the rational tanh shape.
pub const C27: i64 = 1769472;

/// Largest drive magnitude `tanh_fp` accepts (2^40): the product of a
/// guard-bounded sample and a capped gain.
pub const DRIVE_MAX: i64 = 0x100_0000_0000;

/// The saturating sigmoid: rational tanh approximation, clamped to
/// `[-ONE, ONE]` and saturated to one beyond `|z| = 4`.
pub open spec fn tanh_s(z: int) -> int {
    if z >= Z4 {
        ONE as int
    } else if z <= -(Z4 as int) {
        -(ONE as int)
    } else {
        let z2 = fp_mul_s(z, z);
        clamp_s(
            fp_div_s(fp_mul_s(z, C27 + z2), C27 + 9 * z2),
            -(ONE as int),
            ONE as int,
        )
    }
}

/// The sigmoid never leaves `[-ONE, ONE]`.
pub proof fn lemma_tanh_s_range(z: int)
    ensures
        -ONE <= tanh_s(z) <= ONE,
{
}

/// A zero drive produces a zero output: the sigmoid crosses the origin.
pub proof fn lemma_tanh_s_zero()
    ensures
        tanh_s(0) == 0,
{
    lemma_fp_mul_zero(0, 0);
    lemma_fp_mul_zero(0, C27 as int);
    vstd::arithmetic::mul::lemma_mul_by_zero_is_zero(ONE as int);
    vstd::arithmetic::div_mod::lemma_div_of0(C27 as int);
}

/// Saturator state: the cached drive gains and the harmonic blend.
#[derive(Clone, Copy, PartialEq, Eq, Structural, Debug)]
pub struct Distortion {
    pub third_gain: i64,
    pub second_gain: i64,
    pub coeff: i64,
}

/// Mathematical image of `Distortion`.
pub struct DistortionModel {
    pub third_gain: int,
    pub second_gain: int,
    pub coeff: int,
}

impl View for Distortion {
    type V = DistortionModel;

    open spec fn view(&self) -> DistortionModel {
        DistortionModel {
            third_gain: self.third_gain as int,
            second_gain: self.second_gain as int,
            coeff: self.coeff as int,
        }
    }
}

/// Gains within the cap and a blend within `[0, 1]`.
pub open spec fn dist_wf(d: DistortionModel) -> bool {
    &&& abs_s(d.third_gain) <= GAIN_MAX
    &&& abs_s(d.second_gain) <= GAIN_MAX
    &&& 0 <= d.coeff <= ONE
}

/// The saturator output before the final hard clamp: blended third- and
/// second-harmonic terms, the second gated to the nonnegative half-cycle.
pub open spec fn sat_pre_s(d: DistortionModel, x: int) -> int {
    let third = fp_mul_s(fp_mul_s(d.coeff, SAT_NORM as int), tanh_s(fp_mul_s(x, d.third_gain)));
    if x >= 0 {
        third + fp_mul_s(
            fp_mul_s(ONE - d.coeff, SAT_NORM as int),
            tanh_s(fp_mul_s(x, d.second_gain)),
        )
    } else {
        third
    }
}

/// The saturator output: the blended terms, hard-clamped to `[-TEN, TEN]`.
pub open spec fn sat_s(d: DistortionModel, x: int) -> int {
    clamp_s(sat_pre_s(d, x), -(TEN as int), TEN as int)
}

/// Even before the hard clamp the saturator is bounded by `pi / (1 + e)` per
/// summed harmonic term, for every sample and every well-formed parameter set.
pub proof fn lemma_sat_pre_bounded(d: DistortionModel, x: int)
    requires
        dist_wf(d),
    ensures
        abs_s(sat_pre_s(d, x)) <= 2 * SAT_NORM,
        x < 0 ==> abs_s(sat_pre_s(d, x)) <= SAT_NORM,
{
    let t3 = tanh_s(fp_mul_s(x, d.third_gain));
    let t2 = tanh_s(fp_mul_s(x, d.second_gain));
    lemma_tanh_s_range(fp_mul_s(x, d.third_gain));
    lemma_tanh_s_range(fp_mul_s(x, d.second_gain));
    lemma_fp_mul_le(d.coeff, SAT_NORM as int, ONE as int, SAT_NORM as int);
    lemma_fp_mul_le(ONE - d.coeff, SAT_NORM as int, ONE as int, SAT_NORM as int);
    lemma_fp_mul_le(fp_mul_s(d.coeff, SAT_NORM as int), t3, SAT_NORM as int, ONE as int);
    lemma_fp_mul_le(fp_mul_s(ONE - d.coeff, SAT_NORM as int), t2, SAT_NORM as int, ONE as int);
}

/// A zero sample produces a zero output: the saturator injects no DC.
pub proof fn lemma_sat_s_zero(d: DistortionModel)
    ensures
        sat_s(d, 0) == 0,
        sat_pre_s(d, 0) == 0,
{
    lemma_fp_mul_zero(0, d.third_gain);
    lemma_fp_mul_zero(0, d.second_gain);
    lemma_tanh_s_zero();
    lemma_fp_mul_zero(fp_mul_s(d.coeff, SAT_NORM as int), 0);
    lemma_fp_mul_zero(fp_mul_s(ONE - d.coeff, SAT_NORM as int), 0);
}

/// What `Distortion::update_params` leaves in the cache: each control value,
/// clamped into its safe range. The change gate is transparent here because
/// skipping an assignment of an equal value changes nothing.
pub open spec fn dist_params_s(p: ParamsModel) -> DistortionModel {
    DistortionModel {
        third_gain: clamp_s(p.sat_third, -(GAIN_MAX as int), GAIN_MAX as int),
        second_gain: clamp_s(p.sat_second, -(GAIN_MAX as int), GAIN_MAX as int),
        coeff: clamp_s(p.blend, 0, ONE as int),
    }
}

/// The saturating sigmoid, exact per `tanh_s`.
pub fn tanh_fp(z: i64) -> (r: i64)
    requires
        -DRIVE_MAX <= z <= DRIVE_MAX,
    ensures
        r == tanh_s(z as int),
        -ONE <= r <= ONE,
{
    if z >= Z4 {
        ONE
    } else if z <= -Z4 {
        -ONE
    } else {
        let z2 = fp_mul(z, z);
        proof {
            crate::fp::lemma_mdt_square_nonneg(z as int, crate::fp::ONE as int);
            lemma_fp_mul_le(z as int, z as int, Z4 as int, Z4 as int);
        }
        let num = fp_mul(z, C27 + z2);
        proof {
            lemma_fp_mul_le(z as int, (C27 + z2) as int, Z4 as int, C27 + (Z4 as int) * (Z4 as int) / (ONE as int));
        }
        let den = C27 + 9 * z2;
        let t = fp_div(num, den);
        clamp_i(t, -ONE, ONE)
    }
}

impl Distortion {
    /// A fresh saturator with every parameter at zero.
    pub fn new() -> (d: Distortion)
        ensures
            d@ == (DistortionModel { third_gain: 0int, second_gain: 0int, coeff: 0int }),
            dist_wf(d@),
    {
        Distortion { third_gain: 0, second_gain: 0, coeff: 0 }
    }

    /// Adopt the control snapshot, assigning only the values that changed.
    pub fn update_params(&mut self, p: &ControlParams)
        ensures
            final(self)@ == dist_params_s(p@),
            dist_wf(final(self)@),
    {
        let third = clamp_i(p.sat_third, -GAIN_MAX, GAIN_MAX);
        if self.third_gain != third {
            self.third_gain = third;
        }
        let second = clamp_i(p.sat_second, -GAIN_MAX, GAIN_MAX);
        if self.second_gain != second {
            self.second_gain = second;
        }
        let coeff = clamp_i(p.blend, 0, ONE);
        if self.coeff != coeff {
            self.coeff = coeff;
        }
    }

    /// Shape one band-limited sample into harmonic content.
    pub fn process(&self, sample: i64) -> (r: i64)
        requires
            dist_wf(self@),
            -GMAX <= sample <= GMAX,
        ensures
            r == sat_s(self@, sample as int),
            -TEN <= r <= TEN,
    {
        proof {
            lemma_sat_pre_bounded(self@, sample as int);
        }
        let drive3 = fp_mul(sample, self.third_gain);
        proof {
            lemma_fp_mul_le(sample as int, self.third_gain as int, GMAX as int, GAIN_MAX as int);
        }
        let t3 = tanh_fp(drive3);
        let cn3 = fp_mul(self.coeff, SAT_NORM);
        proof {
            lemma_fp_mul_le(self.coeff as int, SAT_NORM as int, ONE as int, SAT_NORM as int);
        }
        let mut out = fp_mul(cn3, t3);
        proof {
            lemma_fp_mul_le(cn3 as int, t3 as int, SAT_NORM as int, ONE as int);
        }
        if sample >= 0 {
            let drive2 = fp_mul(sample, self.second_gain);
            proof {
                lemma_fp_mul_le(sample as int, self.second_gain as int, GMAX as int, GAIN_MAX as int);
            }
            let t2 = tanh_fp(drive2);
            let cn2 = fp_mul(ONE - self.coeff, SAT_NORM);
            proof {
                lemma_fp_mul_le((ONE - self.coeff) as int, SAT_NORM as int, ONE as int, SAT_NORM as int);
            }
            let term2 = fp_mul(cn2, t2);
            proof {
                lemma_fp_mul_le(cn2 as int, t2 as int, SAT_NORM as int, ONE as int);
            }
            out = out + term2;
        }
        clamp_i(out, -TEN, TEN)
    }
}

} // verus!
