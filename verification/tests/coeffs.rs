//! Coefficient-builder properties: frequency response, determinism, and
//! agreement with an independent floating-point Butterworth design.

use bankstown::coeff::{build_coeffs, cos_fp, sin_fp, Coeffs, FilterKind, HALF_PI_CS, K049, PI_CS};
use bankstown::fp::{fp_mul, CS, ONE};
use biquad::{Coefficients, ToHertz, Type, Q_BUTTERWORTH_F32};

fn to_f64(c: i64) -> f64 {
    c as f64 / CS as f64
}

fn hz(v: f64) -> i64 {
    (v * ONE as f64).round() as i64
}

/// Magnitude of the biquad transfer function at normalized frequency w
/// (radians per sample), from the five normalized coefficients.
fn response(c: &Coeffs, w: f64) -> f64 {
    let (b0, b1, b2) = (to_f64(c.b0), to_f64(c.b1), to_f64(c.b2));
    let (a1, a2) = (to_f64(c.a1), to_f64(c.a2));
    let (cw, sw) = (w.cos(), w.sin());
    let (c2w, s2w) = ((2.0 * w).cos(), (2.0 * w).sin());
    let num_re = b0 + b1 * cw + b2 * c2w;
    let num_im = -(b1 * sw + b2 * s2w);
    let den_re = 1.0 + a1 * cw + a2 * c2w;
    let den_im = -(a1 * sw + a2 * s2w);
    ((num_re * num_re + num_im * num_im) / (den_re * den_re + den_im * den_im)).sqrt()
}

#[test]
fn trig_approximations_track_the_real_functions() {
    for i in 0..=16i64 {
        let x = i * PI_CS / 16;
        let xf = x as f64 / CS as f64;
        assert!((to_f64(sin_fp(x)) - xf.sin()).abs() < 0.005);
        assert!((to_f64(cos_fp(x)) - xf.cos()).abs() < 0.005);
    }
    assert_eq!(sin_fp(0), 0);
    assert_eq!(cos_fp(0), CS);
    assert!((to_f64(cos_fp(HALF_PI_CS))).abs() < 0.002);
}

#[test]
fn low_pass_has_unity_gain_at_dc_and_minus_3db_at_cutoff() {
    for (fc, fs) in [(200.0, 48000.0), (120.0, 44100.0), (1000.0, 96000.0)] {
        let c = build_coeffs(FilterKind::LowPass, hz(fc), hz(fs));
        let dc = response(&c, 0.0);
        assert!((dc - 1.0).abs() < 0.001, "DC gain {} for fc={}", dc, fc);
        let w = 2.0 * std::f64::consts::PI * fc / fs;
        let at_cut = response(&c, w);
        let target = std::f64::consts::FRAC_1_SQRT_2;
        assert!(
            (at_cut - target).abs() < 0.03,
            "cutoff gain {} for fc={}",
            at_cut,
            fc
        );
        // well above cutoff the response falls away
        assert!(response(&c, 8.0 * w) < 0.05);
    }
}

#[test]
fn high_pass_has_unity_gain_at_nyquist_and_minus_3db_at_cutoff() {
    for (fc, fs) in [(20.0, 48000.0), (35.0, 44100.0), (60.0, 96000.0)] {
        let c = build_coeffs(FilterKind::HighPass, hz(fc), hz(fs));
        let nyq = response(&c, std::f64::consts::PI);
        assert!((nyq - 1.0).abs() < 0.001, "Nyquist gain {} for fc={}", nyq, fc);
        let w = 2.0 * std::f64::consts::PI * fc / fs;
        let at_cut = response(&c, w);
        let target = std::f64::consts::FRAC_1_SQRT_2;
        assert!(
            (at_cut - target).abs() < 0.03,
            "cutoff gain {} for fc={}",
            at_cut,
            fc
        );
        // well below cutoff the response falls away
        assert!(response(&c, w / 8.0) < 0.05);
    }
}

#[test]
fn unity_gain_anchor_holds_exactly() {
    // the transfer-function numerator and denominator at the anchor
    // frequency (z = 1 for low-pass, z = -1 for high-pass) agree within
    // four quantization steps of the coefficient scale
    for (fc, fs) in [(200.0, 48000.0), (20.0, 8000.0), (3000.0, 192000.0)] {
        let lp = build_coeffs(FilterKind::LowPass, hz(fc), hz(fs));
        let num = lp.b0 + lp.b1 + lp.b2;
        let den = CS + lp.a1 + lp.a2;
        assert!((num - den).abs() <= 4, "LP anchor off by {}", num - den);
        let hp = build_coeffs(FilterKind::HighPass, hz(fc), hz(fs));
        let num = hp.b0 - hp.b1 + hp.b2;
        let den = CS - hp.a1 + hp.a2;
        assert!((num - den).abs() <= 4, "HP anchor off by {}", num - den);
    }
}

#[test]
fn builder_is_deterministic() {
    let a = build_coeffs(FilterKind::LowPass, hz(200.0), hz(48000.0));
    let b = build_coeffs(FilterKind::LowPass, hz(200.0), hz(48000.0));
    assert_eq!(a, b);
    let c = build_coeffs(FilterKind::HighPass, hz(20.0), hz(48000.0));
    let d = build_coeffs(FilterKind::HighPass, hz(20.0), hz(48000.0));
    assert_eq!(c, d);
}

#[test]
fn out_of_range_cutoffs_are_clamped() {
    let fs = hz(48000.0);
    // at or below zero: treated as 1 Hz
    assert_eq!(
        build_coeffs(FilterKind::LowPass, 0, fs),
        build_coeffs(FilterKind::LowPass, hz(1.0), fs)
    );
    assert_eq!(
        build_coeffs(FilterKind::LowPass, -hz(50.0), fs),
        build_coeffs(FilterKind::LowPass, hz(1.0), fs)
    );
    // beyond Nyquist: treated as 0.49 * rate
    let nyq_guard = fp_mul(fs, K049);
    assert_eq!(
        build_coeffs(FilterKind::HighPass, hz(30000.0), fs),
        build_coeffs(FilterKind::HighPass, nyq_guard, fs)
    );
}

#[test]
fn builder_agrees_with_independent_butterworth_design() {
    for (kind, ty, fc, fs) in [
        (FilterKind::LowPass, Type::LowPass, 200.0f32, 48000.0f32),
        (FilterKind::HighPass, Type::HighPass, 20.0, 48000.0),
        (FilterKind::LowPass, Type::LowPass, 1000.0, 44100.0),
        (FilterKind::HighPass, Type::HighPass, 150.0, 96000.0),
    ] {
        let mine = build_coeffs(kind, hz(fc as f64), hz(fs as f64));
        let theirs =
            Coefficients::<f32>::from_params(ty, fs.hz(), fc.hz(), Q_BUTTERWORTH_F32).unwrap();
        let pairs = [
            (to_f64(mine.b0), theirs.b0 as f64),
            (to_f64(mine.b1), theirs.b1 as f64),
            (to_f64(mine.b2), theirs.b2 as f64),
            (to_f64(mine.a1), theirs.a1 as f64),
            (to_f64(mine.a2), theirs.a2 as f64),
        ];
        for (m, t) in pairs {
            assert!((m - t).abs() < 0.01, "coefficient mismatch: {} vs {}", m, t);
        }
    }
}
