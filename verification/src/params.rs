//! The per-block control snapshot the host hands to the pipeline.
//!
//! All values are fixed-point scalars read once per processing block; the
//! pipeline compares them against its cached copies and rebuilds only what
//! actually changed.

use vstd::prelude::*;

verus! {

/// One consistent snapshot of every control value.
#[derive(Clone, Copy, PartialEq, Eq, Structural, Debug)]
pub struct ControlParams {
    /// When set, the whole wet path is skipped and input is passed through
    /// (after the sample clamp).
    pub bypass: bool,
    /// Mix amount: gain applied to the synthesized harmonics before they are
    /// added back to the dry signal.
    pub amt: i64,
    /// Floor frequency in fixed-point hertz: the high-pass cutoff below which
    /// true sub-bass is removed.
    pub floor: i64,
    /// Ceiling frequency in fixed-point hertz: the low-pass cutoff above which
    /// content is kept out of the harmonic generator.
    pub ceil: i64,
    /// Drive of the asymmetric (second harmonic) waveshaper term.
    pub sat_second: i64,
    /// Drive of the symmetric (third harmonic) waveshaper term.
    pub sat_third: i64,
    /// Blend between the third-harmonic term and the second-harmonic term,
    /// nominally in `[0, 1]`.
    pub blend: i64,
}

/// Mathematical image of `ControlParams`.
pub struct ParamsModel {
    pub bypass: bool,
    pub amt: int,
    pub floor: int,
    pub ceil: int,
    pub sat_second: int,
    pub sat_third: int,
    pub blend: int,
}

impl View for ControlParams {
    type V = ParamsModel;

    open spec fn view(&self) -> ParamsModel {
        ParamsModel {
            bypass: self.bypass,
            amt: self.amt as int,
            floor: self.floor as int,
            ceil: self.ceil as int,
            sat_second: self.sat_second as int,
            sat_third: self.sat_third as int,
            blend: self.blend as int,
        }
    }
}

} // verus!
