//! The pipeline's laws: properties that hold of every input and every state,
//! stated over the same spec functions the executable contracts use.

use vstd::prelude::*;
use crate::fp::CS;
use crate::fp::TEN;
use crate::fp::abs_s;
use crate::fp::clamp_s;
use crate::fp::cs_mul_s;
use crate::fp::cs_div_s;
use crate::fp::lemma_fp_mul_zero;
use crate::fp::lemma_mdt_err;
use crate::fp::lemma_mdt_nonneg;
use crate::coeff::FilterKind;
use crate::coeff::coeff_spec;
use crate::coeff::omega_spec;
use crate::coeff::sin_s;
use crate::coeff::cos_s;
use crate::coeff::lemma_sin_s_range;
use crate::coeff::lemma_cos_s_range;
use crate::coeff::INV_SQRT2_CS;
use crate::stage::StageModel;
use crate::stage::lemma_stage_zero;
use crate::sat::DistortionModel;
use crate::sat::dist_wf;
use crate::sat::dist_params_s;
use crate::sat::sat_s;
use crate::sat::sat_pre_s;
use crate::sat::lemma_sat_pre_bounded;
use crate::sat::lemma_sat_s_zero;
use crate::sat::SAT_NORM;
use crate::params::ParamsModel;
use crate::sub::SubModel;
use crate::sub::params_update_s;
use crate::sub::control_update_s;
use crate::sub::channel_step_s;
use crate::sub::channel_run_s;
use crate::sub::run_spec;
use crate::sub::bypass_outs_s;
use crate::sub::AMT_MAX;

verus! {

/// Saturator boundedness: for every sample and every parameter set the
/// output magnitude is at most ten times full scale, and for well-formed
/// parameters the value is bounded by `pi / (1 + e)` per summed harmonic
/// term even before the hard clamp — two terms on the nonnegative
/// half-cycle, one on the negative.
pub proof fn lemma_saturator_bounded(d: DistortionModel, x: int)
    ensures
        abs_s(sat_s(d, x)) <= TEN,
        dist_wf(d) ==> abs_s(sat_pre_s(d, x)) <= 2 * SAT_NORM,
        dist_wf(d) && x < 0 ==> abs_s(sat_pre_s(d, x)) <= SAT_NORM,
{
    if dist_wf(d) {
        lemma_sat_pre_bounded(d, x);
    }
}

/// The built filters anchor their passband at unity gain, exactly: at the
/// anchor frequency (DC for a low-pass, Nyquist for a high-pass) the
/// numerator and denominator of the transfer function agree within four
/// quantization steps of the coefficient scale — a relative error around
/// `10^-9` of unity. At `z = 1` the numerator of `H` is `b0 + b1 + b2` and
/// the denominator is `1 + a1 + a2`; at `z = -1` the middle terms flip sign.
pub proof fn lemma_unity_gain_anchor(kind: FilterKind, fc: int, rate: int)
    ensures
        ({
            let c = coeff_spec(kind, fc, rate);
            match kind {
                FilterKind::LowPass => abs_s((c.b0 + c.b1 + c.b2) - (CS + c.a1 + c.a2)) <= 4,
                FilterKind::HighPass => abs_s((c.b0 - c.b1 + c.b2) - (CS - c.a1 + c.a2)) <= 4,
            }
        }),
{
    let om = omega_spec(fc, rate);
    let s = sin_s(om);
    let cv = cos_s(om);
    lemma_sin_s_range(om);
    lemma_cos_s_range(om);
    let alpha = cs_mul_s(s, INV_SQRT2_CS as int);
    lemma_mdt_nonneg(s, INV_SQRT2_CS as int, CS as int);
    crate::fp::lemma_cs_mul_le(s, INV_SQRT2_CS as int, CS as int, INV_SQRT2_CS as int);
    let a0 = CS + alpha;
    assert(CS <= a0);
    let p: int = match kind {
        FilterKind::LowPass => CS - cv,
        FilterKind::HighPass => CS + cv,
    };
    let b0 = cs_div_s(p, a0 + a0);
    let t = cs_div_s(p, a0);
    let t1 = cs_div_s(cv + cv, a0);
    let a2 = cs_div_s(CS - alpha, a0);
    lemma_mdt_err(p, CS as int, a0 + a0);
    lemma_mdt_err(p, CS as int, a0);
    lemma_mdt_err(cv + cv, CS as int, a0);
    lemma_mdt_err(CS - alpha, CS as int, a0);
    assert((a0 + a0) * b0 == 2 * (a0 * b0)) by (nonlinear_arith);
    let su: int = match kind {
        FilterKind::LowPass => (b0 + t + b0) - (CS + (-t1) + a2),
        FilterKind::HighPass => (b0 - (-t) + b0) - (CS - (-t1) + a2),
    };
    match kind {
        FilterKind::LowPass => {
            assert(a0 * su == (2 * (a0 * b0) - p * CS) + (a0 * t - p * CS) + (a0 * t1 - (cv
                + cv) * CS) - (a0 * a2 - (CS - alpha) * CS)) by (nonlinear_arith)
                requires
                    a0 == CS + alpha,
                    p == CS - cv,
                    su == (b0 + t + b0) - (CS + (-t1) + a2),
            ;
        },
        FilterKind::HighPass => {
            assert(a0 * su == (2 * (a0 * b0) - p * CS) + (a0 * t - p * CS) - (a0 * t1 - (cv
                + cv) * CS) - (a0 * a2 - (CS - alpha) * CS)) by (nonlinear_arith)
                requires
                    a0 == CS + alpha,
                    p == CS + cv,
                    su == (b0 + t + b0) - (CS + t1 + a2),
            ;
        },
    }
    assert(abs_s(a0 * su) < 5 * a0);
    if su >= 5 {
        assert(a0 * su >= 5 * a0) by (nonlinear_arith)
            requires
                su >= 5,
                a0 >= 1,
        ;
    }
    if su <= -5 {
        assert(a0 * su <= -(5 * a0)) by (nonlinear_arith)
            requires
                su <= -5,
                a0 >= 1,
        ;
    }
    assert(abs_s(su) <= 4);
}

/// Control values that match the cache leave the whole state untouched: the
/// change-gated controller is transparent when nothing moved.
pub proof fn lemma_unchanged_controls_freeze_state(m: SubModel, p: ParamsModel)
    requires
        m.floor_curr == p.floor,
        m.ceil_curr == p.ceil,
        m.amt_curr == clamp_s(p.amt, -(AMT_MAX as int), AMT_MAX as int),
        m.sat == dist_params_s(p),
    ensures
        control_update_s(m, p) == m,
{
}

/// Bypass is exact: with controls matching the cache, a bypassed block
/// leaves every filter and saturator register exactly as it was, and each
/// output sample is the input sample clamped to `[-TEN, TEN]`.
pub proof fn lemma_bypass_exact(
    m: SubModel,
    p: ParamsModel,
    inl: Seq<i64>,
    inr: Seq<i64>,
    nl: int,
    nr: int,
)
    requires
        p.bypass,
        m.floor_curr == p.floor,
        m.ceil_curr == p.ceil,
        m.amt_curr == clamp_s(p.amt, -(AMT_MAX as int), AMT_MAX as int),
        m.sat == dist_params_s(p),
        0 <= nl,
        0 <= nr,
    ensures
        run_spec(m, p, inl, inr, nl, nr).0 == m,
        run_spec(m, p, inl, inr, nl, nr).1 == bypass_outs_s(inl, nl),
        run_spec(m, p, inl, inr, nl, nr).2 == bypass_outs_s(inr, nr),
        forall|i: int|
            0 <= i < nl ==> run_spec(m, p, inl, inr, nl, nr).1[i] == clamp_s(
                inl[i] as int,
                -(TEN as int),
                TEN as int,
            ),
        forall|i: int|
            0 <= i < nr ==> run_spec(m, p, inl, inr, nl, nr).2[i] == clamp_s(
                inr[i] as int,
                -(TEN as int),
                TEN as int,
            ),
{
    lemma_unchanged_controls_freeze_state(m, p);
}

/// Rebuilding is idempotent: a second control update with the same snapshot
/// changes nothing, so in particular rebuilding a filter role twice with the
/// same cutoff yields coefficient-identical filters.
pub proof fn lemma_control_update_idempotent(m: SubModel, p: ParamsModel)
    ensures
        control_update_s(control_update_s(m, p), p) == control_update_s(m, p),
        params_update_s(params_update_s(m, p), p) == params_update_s(m, p),
{
}

/// One zero sample through the active chain from cleared filter registers
/// produces a zero output sample and leaves the registers cleared.
pub proof fn lemma_silent_step(hp: StageModel, lp: StageModel, d: DistortionModel, amt: int)
    requires
        hp.w1 == 0,
        hp.w2 == 0,
        lp.w1 == 0,
        lp.w2 == 0,
    ensures
        channel_step_s(hp, lp, d, amt, 0) == (hp, lp, 0int),
{
    lemma_stage_zero(hp);
    lemma_stage_zero(lp);
    lemma_sat_s_zero(d);
    lemma_fp_mul_zero(sat_s(d, 0), amt);
}

/// Silence preservation: an all-zero input block through the active chain,
/// started from cleared filter registers, produces an all-zero output block
/// and leaves the registers cleared — no stage injects DC, whatever the
/// parameters are.
pub proof fn lemma_silence_preserved(
    hp: StageModel,
    lp: StageModel,
    d: DistortionModel,
    amt: int,
    xs: Seq<i64>,
)
    requires
        hp.w1 == 0,
        hp.w2 == 0,
        lp.w1 == 0,
        lp.w2 == 0,
        forall|i: int| 0 <= i < xs.len() ==> xs[i] == 0,
    ensures
        channel_run_s(hp, lp, d, amt, xs).0 == hp,
        channel_run_s(hp, lp, d, amt, xs).1 == lp,
        channel_run_s(hp, lp, d, amt, xs).2.len() == xs.len(),
        forall|i: int| 0 <= i < xs.len() ==> channel_run_s(hp, lp, d, amt, xs).2[i] == 0,
    decreases xs.len(),
{
    if xs.len() > 0 {
        assert(xs[xs.len() - 1] == 0);
        lemma_silence_preserved(hp, lp, d, amt, xs.drop_last());
        lemma_silent_step(hp, lp, d, amt);
    }
}

} // verus!
