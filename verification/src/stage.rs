//! Stateful second-order IIR filter stage in Direct-Form-II-Transposed shape.
//!
//! Each stage holds one set of coefficients and two delay registers, and
//! advances by the recurrence
//!
//! ```text
//! y   = b0*x + w1
//! w1' = b1*x + w2 - a1*y
//! w2' = b2*x      - a2*y
//! ```
//!
//! The output and both registers are clamped into `[-GMAX, GMAX]` on every
//! step. The clamp is a pure overflow guard: `GMAX` is about 16384 in real
//! terms, three orders of magnitude above the ten-times-full-scale sample
//! clamp, so a stable filter never reaches it.

use vstd::prelude::*;
use crate::fp::abs_s;
use crate::fp::clamp_s;
use crate::fp::clamp_i;
use crate::fp::cs_mul_s;
use crate::fp::cs_mul;
use crate::fp::lemma_cs_mul_le;
use crate::coeff::Coeffs;
use crate::coeff::CoeffsModel;
use crate::coeff::coeffs_wf;
use crate::coeff::CMAX;

verus! {

/// Guard bound for the stage output and delay registers (2^30).
pub const GMAX: i64 = 0x4000_0000;

/// One biquad filter stage: coefficients plus delay state.
#[derive(Clone, Copy, PartialEq, Eq, Structural, Debug)]
pub struct Stage {
    pub c: Coeffs,
    pub w1: i64,
    pub w2: i64,
}

/// Mathematical image of `Stage`.
pub struct StageModel {
    pub c: CoeffsModel,
    pub w1: int,
    pub w2: int,
}

impl View for Stage {
    type V = StageModel;

    open spec fn view(&self) -> StageModel {
        StageModel { c: self.c@, w1: self.w1 as int, w2: self.w2 as int }
    }
}

/// Well-formed coefficients and in-guard delay registers.
pub open spec fn stage_wf(m: StageModel) -> bool {
    &&& coeffs_wf(m.c)
    &&& abs_s(m.w1) <= GMAX
    &&& abs_s(m.w2) <= GMAX
}

/// The output of one step of the recurrence.
pub open spec fn stage_out_s(m: StageModel, x: int) -> int {
    clamp_s(cs_mul_s(m.c.b0, x) + m.w1, -(GMAX as int), GMAX as int)
}

/// The state after one step of the recurrence.
pub open spec fn stage_next_s(m: StageModel, x: int) -> StageModel {
    let y = stage_out_s(m, x);
    StageModel {
        c: m.c,
        w1: clamp_s(
            cs_mul_s(m.c.b1, x) + m.w2 - cs_mul_s(m.c.a1, y),
            -(GMAX as int),
            GMAX as int,
        ),
        w2: clamp_s(cs_mul_s(m.c.b2, x) - cs_mul_s(m.c.a2, y), -(GMAX as int), GMAX as int),
    }
}

/// A step from all-zero registers on a zero sample produces zero and leaves
/// the registers at zero: the stage injects no DC.
pub proof fn lemma_stage_zero(m: StageModel)
    requires
        m.w1 == 0,
        m.w2 == 0,
    ensures
        stage_out_s(m, 0) == 0,
        stage_next_s(m, 0) == m,
{
    crate::fp::lemma_cs_mul_zero(m.c.b0, 0);
    crate::fp::lemma_cs_mul_zero(m.c.b1, 0);
    crate::fp::lemma_cs_mul_zero(m.c.b2, 0);
    crate::fp::lemma_cs_mul_zero(m.c.a1, 0);
    crate::fp::lemma_cs_mul_zero(m.c.a2, 0);
}

impl Stage {
    /// A fresh stage: the given coefficients with cleared delay registers.
    pub fn new(c: Coeffs) -> (s: Stage)
        ensures
            s@ == (StageModel { c: c@, w1: 0int, w2: 0int }),
    {
        Stage { c: c, w1: 0, w2: 0 }
    }

    /// Filter one sample, advancing the delay registers in place.
    pub fn run(&mut self, x: i64) -> (y: i64)
        requires
            stage_wf(old(self)@),
            -GMAX <= x <= GMAX,
        ensures
            y == stage_out_s(old(self)@, x as int),
            final(self)@ == stage_next_s(old(self)@, x as int),
            stage_wf(final(self)@),
            -GMAX <= y <= GMAX,
    {
        let t0 = cs_mul(self.c.b0, x);
        proof {
            lemma_cs_mul_le(self.c.b0 as int, x as int, CMAX as int, GMAX as int);
        }
        let y = clamp_i(t0 + self.w1, -GMAX, GMAX);
        let t1 = cs_mul(self.c.b1, x);
        let t2 = cs_mul(self.c.a1, y);
        proof {
            lemma_cs_mul_le(self.c.b1 as int, x as int, CMAX as int, GMAX as int);
            lemma_cs_mul_le(self.c.a1 as int, y as int, CMAX as int, GMAX as int);
        }
        let w1n = clamp_i(t1 + self.w2 - t2, -GMAX, GMAX);
        let t3 = cs_mul(self.c.b2, x);
        let t4 = cs_mul(self.c.a2, y);
        proof {
            lemma_cs_mul_le(self.c.b2 as int, x as int, CMAX as int, GMAX as int);
            lemma_cs_mul_le(self.c.a2 as int, y as int, CMAX as int, GMAX as int);
        }
        let w2n = clamp_i(t3 - t4, -GMAX, GMAX);
        self.w1 = w1n;
        self.w2 = w2n;
        y
    }
}

} // verus!
