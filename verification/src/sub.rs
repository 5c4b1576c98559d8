//! The bass-enhancement pipeline: filter bank, parameter controller and the
//! per-block processing entry point.
//!
//! The `Subwoofer` owns, per channel, a high-pass stage (removing true
//! sub-bass below the floor frequency) cascaded into a low-pass stage
//! (removing content above the ceiling), forming the band that drives the
//! saturator. Once per block the controller compares each control value with
//! its cache and rebuilds only the filter role whose cutoff actually moved;
//! a rebuild replaces the role's stages wholesale with fresh, zero-state
//! stages, which makes rebuilding deterministic.
//!
//! Per sample the active chain computes
//! `out = dry + amt * saturate(lowpass(highpass(dry)))` with
//! `dry = clamp(in, -10, 10)`; under bypass the chain is skipped sample by
//! sample and the clamped input is passed through while every filter and
//! saturator register stays frozen.

use vstd::prelude::*;
use vstd::pervasive::VecAdditionalExecFns;
use crate::fp::TEN;
use crate::fp::abs_s;
use crate::fp::clamp_s;
use crate::fp::clamp_i;
use crate::fp::fp_mul_s;
use crate::fp::fp_mul;
use crate::fp::lemma_fp_mul_le;
use crate::coeff::FilterKind;
use crate::coeff::CoeffsModel;
use crate::coeff::coeff_spec;
use crate::coeff::build_coeffs;
use crate::coeff::RATE_MIN;
use crate::coeff::RATE_MAX;
use crate::stage::Stage;
use crate::stage::StageModel;
use crate::stage::stage_wf;
use crate::stage::stage_out_s;
use crate::stage::stage_next_s;
use crate::sat::Distortion;
use crate::sat::DistortionModel;
use crate::sat::dist_wf;
use crate::sat::dist_params_s;
use crate::sat::sat_s;
use crate::params::ControlParams;
use crate::params::ParamsModel;

verus! {

/// Magnitude cap on the mix amount (1024 in real terms): incoming control
/// values are clamped here so that the wet scaling cannot overflow.
pub const AMT_MAX: i64 = 0x400_0000;

/// Default floor cutoff at instantiation: 20 Hz in fixed point.
pub const DEFAULT_FLOOR: i64 = 1310720;

/// Default ceiling cutoff at instantiation: 200 Hz in fixed point.
pub const DEFAULT_CEIL: i64 = 13107200;

/// The smaller of two values.
pub open spec fn min_s(a: int, b: int) -> int {
    if a < b {
        a
    } else {
        b
    }
}

/// A freshly built stage: the given coefficients with cleared registers.
pub open spec fn built_stage_s(c: CoeffsModel) -> StageModel {
    StageModel { c: c, w1: 0, w2: 0 }
}

/// The whole pipeline state.
pub struct Subwoofer {
    pub floor_curr: i64,
    pub ceil_curr: i64,
    pub amt_curr: i64,
    pub sample_rate: i64,
    pub sat: Distortion,
    pub hp_l: Stage,
    pub hp_r: Stage,
    pub lp_l: Stage,
    pub lp_r: Stage,
}

/// Mathematical image of `Subwoofer`.
pub struct SubModel {
    pub floor_curr: int,
    pub ceil_curr: int,
    pub amt_curr: int,
    pub sample_rate: int,
    pub sat: DistortionModel,
    pub hp_l: StageModel,
    pub hp_r: StageModel,
    pub lp_l: StageModel,
    pub lp_r: StageModel,
}

impl View for Subwoofer {
    type V = SubModel;

    open spec fn view(&self) -> SubModel {
        SubModel {
            floor_curr: self.floor_curr as int,
            ceil_curr: self.ceil_curr as int,
            amt_curr: self.amt_curr as int,
            sample_rate: self.sample_rate as int,
            sat: self.sat@,
            hp_l: self.hp_l@,
            hp_r: self.hp_r@,
            lp_l: self.lp_l@,
            lp_r: self.lp_r@,
        }
    }
}

/// A sample rate in range, a well-formed saturator and mix cache, and four
/// well-formed stages.
pub open spec fn sub_wf(m: SubModel) -> bool {
    &&& RATE_MIN <= m.sample_rate <= RATE_MAX
    &&& abs_s(m.amt_curr) <= AMT_MAX
    &&& dist_wf(m.sat)
    &&& stage_wf(m.hp_l)
    &&& stage_wf(m.hp_r)
    &&& stage_wf(m.lp_l)
    &&& stage_wf(m.lp_r)
}

/// What the filter-bank controller leaves behind: for each of floor and
/// ceiling, if the incoming value differs from the cache, the corresponding
/// role is rebuilt from fresh zero-state stages and the cache is updated;
/// the mix cache always holds the clamped mix amount.
pub open spec fn params_update_s(m: SubModel, p: ParamsModel) -> SubModel {
    let m1 = if m.floor_curr != p.floor {
        SubModel {
            floor_curr: p.floor,
            hp_l: built_stage_s(coeff_spec(FilterKind::HighPass, p.floor, m.sample_rate)),
            hp_r: built_stage_s(coeff_spec(FilterKind::HighPass, p.floor, m.sample_rate)),
            ..m
        }
    } else {
        m
    };
    let m2 = if m1.ceil_curr != p.ceil {
        SubModel {
            ceil_curr: p.ceil,
            lp_l: built_stage_s(coeff_spec(FilterKind::LowPass, p.ceil, m1.sample_rate)),
            lp_r: built_stage_s(coeff_spec(FilterKind::LowPass, p.ceil, m1.sample_rate)),
            ..m1
        }
    } else {
        m1
    };
    SubModel { amt_curr: clamp_s(p.amt, -(AMT_MAX as int), AMT_MAX as int), ..m2 }
}

/// The full once-per-block control update: the filter-bank controller
/// followed by the saturator's parameter adoption.
pub open spec fn control_update_s(m: SubModel, p: ParamsModel) -> SubModel {
    SubModel { sat: dist_params_s(p), ..params_update_s(m, p) }
}

/// One sample through the active chain of one channel: clamp, band-pass,
/// saturate, scale, and sum with the dry signal. Returns the advanced
/// high-pass stage, the advanced low-pass stage, and the output sample.
pub open spec fn channel_step_s(
    hp: StageModel,
    lp: StageModel,
    d: DistortionModel,
    amt: int,
    x: int,
) -> (StageModel, StageModel, int) {
    let xd = clamp_s(x, -(TEN as int), TEN as int);
    let bh = stage_out_s(hp, xd);
    let hp2 = stage_next_s(hp, xd);
    let bl = stage_out_s(lp, bh);
    let lp2 = stage_next_s(lp, bh);
    let out = fp_mul_s(sat_s(d, bl), amt) + xd;
    (hp2, lp2, out)
}

/// A whole block through the active chain of one channel, sample by sample.
pub open spec fn channel_run_s(
    hp: StageModel,
    lp: StageModel,
    d: DistortionModel,
    amt: int,
    xs: Seq<i64>,
) -> (StageModel, StageModel, Seq<int>)
    decreases xs.len(),
{
    if xs.len() == 0 {
        (hp, lp, Seq::empty())
    } else {
        let prev = channel_run_s(hp, lp, d, amt, xs.drop_last());
        let step = channel_step_s(prev.0, prev.1, d, amt, xs.last() as int);
        (step.0, step.1, prev.2.push(step.2))
    }
}

/// The active chain produces exactly one output sample per input sample.
pub proof fn lemma_channel_run_len(
    hp: StageModel,
    lp: StageModel,
    d: DistortionModel,
    amt: int,
    xs: Seq<i64>,
)
    ensures
        channel_run_s(hp, lp, d, amt, xs).2.len() == xs.len(),
    decreases xs.len(),
{
    if xs.len() > 0 {
        lemma_channel_run_len(hp, lp, d, amt, xs.drop_last());
    }
}

/// The first `n` input samples under bypass: each clamped to ten times full
/// scale and passed through.
pub open spec fn bypass_outs_s(xs: Seq<i64>, n: int) -> Seq<int> {
    Seq::new(n as nat, |i: int| clamp_s(xs[i] as int, -(TEN as int), TEN as int))
}

/// What one call of `Subwoofer::run` does: the control update, then either
/// the bypass pass-through (state frozen) or the active chain on both
/// channels. `nl` and `nr` are the per-channel sample counts, the shorter of
/// the input and output lengths.
pub open spec fn run_spec(
    m0: SubModel,
    p: ParamsModel,
    inl: Seq<i64>,
    inr: Seq<i64>,
    nl: int,
    nr: int,
) -> (SubModel, Seq<int>, Seq<int>) {
    let m = control_update_s(m0, p);
    if p.bypass {
        (m, bypass_outs_s(inl, nl), bypass_outs_s(inr, nr))
    } else {
        let chl = channel_run_s(m.hp_l, m.lp_l, m.sat, m.amt_curr, inl.take(nl));
        let chr = channel_run_s(m.hp_r, m.lp_r, m.sat, m.amt_curr, inr.take(nr));
        (
            SubModel { hp_l: chl.0, lp_l: chl.1, hp_r: chr.0, lp_r: chr.1, ..m },
            chl.2,
            chr.2,
        )
    }
}

/// Build the pair of high-pass stages (left, right) for a floor cutoff.
pub fn build_hpfs(fc: i64, rate: i64) -> (r: (Stage, Stage))
    requires
        RATE_MIN <= rate <= RATE_MAX,
    ensures
        r.0@ == built_stage_s(coeff_spec(FilterKind::HighPass, fc as int, rate as int)),
        r.1@ == r.0@,
        stage_wf(r.0@),
{
    let c = build_coeffs(FilterKind::HighPass, fc, rate);
    (Stage::new(c), Stage::new(c))
}

/// Build the pair of low-pass stages (left, right) for a ceiling cutoff.
pub fn build_lpfs(fc: i64, rate: i64) -> (r: (Stage, Stage))
    requires
        RATE_MIN <= rate <= RATE_MAX,
    ensures
        r.0@ == built_stage_s(coeff_spec(FilterKind::LowPass, fc as int, rate as int)),
        r.1@ == r.0@,
        stage_wf(r.0@),
{
    let c = build_coeffs(FilterKind::LowPass, fc, rate);
    (Stage::new(c), Stage::new(c))
}

impl Subwoofer {
    /// A fresh pipeline at the given sample rate: zeroed caches and
    /// saturator, and filter banks built at the default 20 Hz floor and
    /// 200 Hz ceiling.
    pub fn new(sample_rate: i64) -> (s: Subwoofer)
        requires
            RATE_MIN <= sample_rate <= RATE_MAX,
        ensures
            s@.floor_curr == 0,
            s@.ceil_curr == 0,
            s@.amt_curr == 0,
            s@.sample_rate == sample_rate,
            s@.sat == (DistortionModel { third_gain: 0int, second_gain: 0int, coeff: 0int }),
            s@.hp_l == built_stage_s(
                coeff_spec(FilterKind::HighPass, DEFAULT_FLOOR as int, sample_rate as int),
            ),
            s@.hp_r == s@.hp_l,
            s@.lp_l == built_stage_s(
                coeff_spec(FilterKind::LowPass, DEFAULT_CEIL as int, sample_rate as int),
            ),
            s@.lp_r == s@.lp_l,
            sub_wf(s@),
    {
        let hp = build_hpfs(DEFAULT_FLOOR, sample_rate);
        let lp = build_lpfs(DEFAULT_CEIL, sample_rate);
        Subwoofer {
            floor_curr: 0,
            ceil_curr: 0,
            amt_curr: 0,
            sample_rate: sample_rate,
            sat: Distortion::new(),
            hp_l: hp.0,
            hp_r: hp.1,
            lp_l: lp.0,
            lp_r: lp.1,
        }
    }

    /// The change-gated filter-bank controller: rebuild each role only when
    /// its cutoff moved, and refresh the clamped mix cache.
    pub fn update_params(&mut self, p: &ControlParams)
        requires
            sub_wf(old(self)@),
        ensures
            final(self)@ == params_update_s(old(self)@, p@),
            sub_wf(final(self)@),
    {
        if self.floor_curr != p.floor {
            let hp = build_hpfs(p.floor, self.sample_rate);
            self.hp_l = hp.0;
            self.hp_r = hp.1;
            self.floor_curr = p.floor;
        }
        if self.ceil_curr != p.ceil {
            let lp = build_lpfs(p.ceil, self.sample_rate);
            self.lp_l = lp.0;
            self.lp_r = lp.1;
            self.ceil_curr = p.ceil;
        }
        let amt = clamp_i(p.amt, -AMT_MAX, AMT_MAX);
        if self.amt_curr != amt {
            self.amt_curr = amt;
        }
    }

    /// Process one block: adopt the control snapshot, then run every sample
    /// of both channels through the bypass pass-through or the active chain.
    /// Only the shorter of each input/output pair is touched; output samples
    /// beyond it keep their old values.
    pub fn run(
        &mut self,
        p: &ControlParams,
        in_l: &Vec<i64>,
        in_r: &Vec<i64>,
        out_l: &mut Vec<i64>,
        out_r: &mut Vec<i64>,
    )
        requires
            sub_wf(old(self)@),
        ensures
            sub_wf(final(self)@),
            final(out_l)@.len() == old(out_l)@.len(),
            final(out_r)@.len() == old(out_r)@.len(),
            ({
                let nl = min_s(in_l@.len() as int, old(out_l)@.len() as int);
                let nr = min_s(in_r@.len() as int, old(out_r)@.len() as int);
                let r = run_spec(old(self)@, p@, in_l@, in_r@, nl, nr);
                &&& final(self)@ == r.0
                &&& (forall|i: int| 0 <= i < nl ==> final(out_l)@[i] == r.1[i])
                &&& (forall|i: int|
                    nl <= i < old(out_l)@.len() ==> final(out_l)@[i] == old(out_l)@[i])
                &&& (forall|i: int| 0 <= i < nr ==> final(out_r)@[i] == r.2[i])
                &&& (forall|i: int|
                    nr <= i < old(out_r)@.len() ==> final(out_r)@[i] == old(out_r)@[i])
            }),
    {
        self.update_params(p);
        self.sat.update_params(p);
        let ghost m = self@;
        let nl: usize = if in_l.len() < out_l.len() {
            in_l.len()
        } else {
            out_l.len()
        };
        let nr: usize = if in_r.len() < out_r.len() {
            in_r.len()
        } else {
            out_r.len()
        };
        if p.bypass {
            let mut i: usize = 0;
            while i < nl
                invariant
                    i <= nl,
                    nl == min_s(in_l@.len() as int, old(out_l)@.len() as int),
                    out_l@.len() == old(out_l)@.len(),
                    forall|j: int|
                        0 <= j < i ==> out_l@[j] == clamp_s(
                            in_l@[j] as int,
                            -(TEN as int),
                            TEN as int,
                        ),
                    forall|j: int| i <= j < out_l@.len() ==> out_l@[j] == old(out_l)@[j],
                decreases nl - i,
            {
                let v = clamp_i(in_l[i], -TEN, TEN);
                out_l.set(i, v);
                i = i + 1;
            }
            let mut k: usize = 0;
            while k < nr
                invariant
                    k <= nr,
                    nr == min_s(in_r@.len() as int, old(out_r)@.len() as int),
                    out_r@.len() == old(out_r)@.len(),
                    forall|j: int|
                        0 <= j < k ==> out_r@[j] == clamp_s(
                            in_r@[j] as int,
                            -(TEN as int),
                            TEN as int,
                        ),
                    forall|j: int| k <= j < out_r@.len() ==> out_r@[j] == old(out_r)@[j],
                decreases nr - k,
            {
                let v = clamp_i(in_r[k], -TEN, TEN);
                out_r.set(k, v);
                k = k + 1;
            }
        } else {
            let mut i: usize = 0;
            while i < nl
                invariant
                    i <= nl,
                    nl == min_s(in_l@.len() as int, old(out_l)@.len() as int),
                    sub_wf(m),
                    sub_wf(self@),
                    self@ == (SubModel {
                        hp_l: channel_run_s(m.hp_l, m.lp_l, m.sat, m.amt_curr, in_l@.take(i as int)).0,
                        lp_l: channel_run_s(m.hp_l, m.lp_l, m.sat, m.amt_curr, in_l@.take(i as int)).1,
                        ..m
                    }),
                    out_l@.len() == old(out_l)@.len(),
                    forall|j: int|
                        0 <= j < i ==> out_l@[j] == channel_run_s(
                            m.hp_l,
                            m.lp_l,
                            m.sat,
                            m.amt_curr,
                            in_l@.take(i as int),
                        ).2[j],
                    forall|j: int| i <= j < out_l@.len() ==> out_l@[j] == old(out_l)@[j],
                decreases nl - i,
            {
                let ghost pre = channel_run_s(m.hp_l, m.lp_l, m.sat, m.amt_curr, in_l@.take(i as int));
                let x = in_l[i];
                let xd = clamp_i(x, -TEN, TEN);
                let bh = self.hp_l.run(xd);
                let bl = self.lp_l.run(bh);
                let s = self.sat.process(bl);
                let wet = fp_mul(s, self.amt_curr);
                proof {
                    lemma_fp_mul_le(s as int, m.amt_curr, TEN as int, AMT_MAX as int);
                }
                let y = wet + xd;
                out_l.set(i, y);
                proof {
                    lemma_channel_run_len(m.hp_l, m.lp_l, m.sat, m.amt_curr, in_l@.take(i as int));
                    let xs1 = in_l@.take(i + 1int);
                    assert(xs1.drop_last() =~= in_l@.take(i as int));
                    assert(xs1.last() == in_l@[i as int]);
                    let step = channel_step_s(pre.0, pre.1, m.sat, m.amt_curr, x as int);
                    assert(channel_run_s(m.hp_l, m.lp_l, m.sat, m.amt_curr, xs1) == (
                        step.0,
                        step.1,
                        pre.2.push(step.2),
                    ));
                    assert(y == step.2);
                }
                i = i + 1;
            }
            let ghost m2 = self@;
            let mut k: usize = 0;
            while k < nr
                invariant
                    k <= nr,
                    nr == min_s(in_r@.len() as int, old(out_r)@.len() as int),
                    sub_wf(m),
                    sub_wf(m2),
                    sub_wf(self@),
                    m2.sat == m.sat,
                    m2.amt_curr == m.amt_curr,
                    m2.hp_r == m.hp_r,
                    m2.lp_r == m.lp_r,
                    self@ == (SubModel {
                        hp_r: channel_run_s(m.hp_r, m.lp_r, m.sat, m.amt_curr, in_r@.take(k as int)).0,
                        lp_r: channel_run_s(m.hp_r, m.lp_r, m.sat, m.amt_curr, in_r@.take(k as int)).1,
                        ..m2
                    }),
                    out_r@.len() == old(out_r)@.len(),
                    forall|j: int|
                        0 <= j < k ==> out_r@[j] == channel_run_s(
                            m.hp_r,
                            m.lp_r,
                            m.sat,
                            m.amt_curr,
                            in_r@.take(k as int),
                        ).2[j],
                    forall|j: int| k <= j < out_r@.len() ==> out_r@[j] == old(out_r)@[j],
                decreases nr - k,
            {
                let ghost pre = channel_run_s(m.hp_r, m.lp_r, m.sat, m.amt_curr, in_r@.take(k as int));
                let x = in_r[k];
                let xd = clamp_i(x, -TEN, TEN);
                let bh = self.hp_r.run(xd);
                let bl = self.lp_r.run(bh);
                let s = self.sat.process(bl);
                let wet = fp_mul(s, self.amt_curr);
                proof {
                    lemma_fp_mul_le(s as int, m.amt_curr, TEN as int, AMT_MAX as int);
                }
                let y = wet + xd;
                out_r.set(k, y);
                proof {
                    lemma_channel_run_len(m.hp_r, m.lp_r, m.sat, m.amt_curr, in_r@.take(k as int));
                    let xs1 = in_r@.take(k + 1int);
                    assert(xs1.drop_last() =~= in_r@.take(k as int));
                    assert(xs1.last() == in_r@[k as int]);
                    let step = channel_step_s(pre.0, pre.1, m.sat, m.amt_curr, x as int);
                    assert(channel_run_s(m.hp_r, m.lp_r, m.sat, m.amt_curr, xs1) == (
                        step.0,
                        step.1,
                        pre.2.push(step.2),
                    ));
                    assert(y == step.2);
                }
                k = k + 1;
            }
        }
        proof {
            lemma_channel_run_len(m.hp_l, m.lp_l, m.sat, m.amt_curr, in_l@.take(nl as int));
            lemma_channel_run_len(m.hp_r, m.lp_r, m.sat, m.amt_curr, in_r@.take(nr as int));
        }
    }
}

} // verus!
