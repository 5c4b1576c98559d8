//! Whole-pipeline scenarios: bypass exactness, silence preservation,
//! change-gated rebuilds, mismatched block lengths, and the end-to-end
//! harmonic-enhancement effect.

use bankstown::fp::{ONE, TEN};
use bankstown::params::ControlParams;
use bankstown::sub::Subwoofer;

fn hz(v: f64) -> i64 {
    (v * ONE as f64).round() as i64
}

fn fixed(v: f64) -> i64 {
    (v * ONE as f64).round() as i64
}

fn params(bypass: bool) -> ControlParams {
    ControlParams {
        bypass,
        amt: ONE / 2,
        floor: hz(20.0),
        ceil: hz(200.0),
        sat_second: 2 * ONE,
        sat_third: 2 * ONE,
        blend: ONE / 2,
    }
}

fn sine_block(freq: f64, amp: f64, fs: f64, n: usize) -> Vec<i64> {
    let mut v = Vec::with_capacity(n);
    for i in 0..n {
        let t = i as f64 / fs;
        v.push(fixed(amp * (2.0 * std::f64::consts::PI * freq * t).sin()));
    }
    v
}

/// Signal power at one frequency, by the Goertzel recurrence.
fn goertzel_power(x: &[i64], fs: f64, freq: f64) -> f64 {
    let n = x.len() as f64;
    let k = (0.5 + n * freq / fs).floor();
    let w = 2.0 * std::f64::consts::PI * k / n;
    let coeff = 2.0 * w.cos();
    let mut s1 = 0.0f64;
    let mut s2 = 0.0f64;
    for &v in x {
        let s = v as f64 / ONE as f64 + coeff * s1 - s2;
        s2 = s1;
        s1 = s;
    }
    (s1 * s1 + s2 * s2 - coeff * s1 * s2) / (n * n / 4.0)
}

#[test]
fn bypass_passes_clamped_input_through() {
    let mut sw = Subwoofer::new(hz(48000.0));
    let input: Vec<i64> = vec![fixed(-12.0), 0, fixed(0.3), fixed(15.0)];
    let mut out_l = vec![7i64; 4];
    let mut out_r = vec![7i64; 4];
    let p = params(true);
    sw.run(&p, &input, &input, &mut out_l, &mut out_r);
    let expect = vec![-TEN, 0, fixed(0.3), TEN];
    assert_eq!(out_l, expect);
    assert_eq!(out_r, expect);
}

#[test]
fn bypass_freezes_filter_and_saturator_state() {
    let fs = hz(48000.0);
    let mut sw = Subwoofer::new(fs);
    let p = params(false);
    let input = sine_block(60.0, 0.5, 48000.0, 512);
    let mut out_l = vec![0i64; 512];
    let mut out_r = vec![0i64; 512];
    // drive the chain so the delay registers are nonzero
    sw.run(&p, &input, &input, &mut out_l, &mut out_r);
    assert!(sw.hp_l.w1 != 0 || sw.hp_l.w2 != 0);
    let frozen = (sw.hp_l, sw.hp_r, sw.lp_l, sw.lp_r, sw.sat);
    // a bypassed block with the same controls must not touch any state
    let pb = params(true);
    sw.run(&pb, &input, &input, &mut out_l, &mut out_r);
    assert_eq!(frozen, (sw.hp_l, sw.hp_r, sw.lp_l, sw.lp_r, sw.sat));
    for i in 0..512 {
        let x = input[i].clamp(-TEN, TEN);
        assert_eq!(out_l[i], x);
        assert_eq!(out_r[i], x);
    }
}

#[test]
fn silence_in_gives_silence_out() {
    let mut sw = Subwoofer::new(hz(44100.0));
    let input = vec![0i64; 256];
    let mut out_l = vec![5i64; 256];
    let mut out_r = vec![5i64; 256];
    let p = params(false);
    sw.run(&p, &input, &input, &mut out_l, &mut out_r);
    assert_eq!(out_l, vec![0i64; 256]);
    assert_eq!(out_r, vec![0i64; 256]);
}

#[test]
fn rebuild_is_change_gated_and_idempotent() {
    let mut sw = Subwoofer::new(hz(48000.0));
    let p = params(false);
    sw.update_params(&p);
    let after_first = (sw.hp_l, sw.lp_l, sw.floor_curr, sw.ceil_curr, sw.amt_curr);
    // same snapshot again: nothing rebuilt, nothing moved
    sw.update_params(&p);
    assert_eq!(
        after_first,
        (sw.hp_l, sw.lp_l, sw.floor_curr, sw.ceil_curr, sw.amt_curr)
    );
    // a moved ceiling rebuilds only the low-pass role, with cleared state
    let mut p2 = p;
    p2.ceil = hz(300.0);
    let hp_before = sw.hp_l;
    sw.update_params(&p2);
    assert_eq!(sw.hp_l, hp_before);
    assert_ne!(sw.lp_l.c, after_first.1.c);
    assert_eq!(sw.lp_l.w1, 0);
    assert_eq!(sw.lp_l.w2, 0);
    // rebuilding twice from the same cutoff gives coefficient-identical filters
    let lp_once = sw.lp_l;
    let mut sw2 = Subwoofer::new(hz(48000.0));
    sw2.update_params(&p2);
    assert_eq!(sw2.lp_l.c, lp_once.c);
}

#[test]
fn mismatched_lengths_touch_only_the_shorter_prefix() {
    let mut sw = Subwoofer::new(hz(48000.0));
    let p = params(true);
    let input: Vec<i64> = vec![fixed(0.1), fixed(0.2), fixed(0.3)];
    let mut out_l = vec![99i64; 5];
    let mut out_r = vec![99i64; 2];
    sw.run(&p, &input, &input, &mut out_l, &mut out_r);
    assert_eq!(out_l, vec![fixed(0.1), fixed(0.2), fixed(0.3), 99, 99]);
    assert_eq!(out_r, vec![fixed(0.1), fixed(0.2)]);
}

#[test]
fn channels_have_independent_state() {
    let fs = hz(48000.0);
    let p = params(false);
    let a = sine_block(60.0, 0.4, 48000.0, 1024);
    let b = sine_block(90.0, 0.3, 48000.0, 1024);
    let mut stereo = Subwoofer::new(fs);
    let mut st_l = vec![0i64; 1024];
    let mut st_r = vec![0i64; 1024];
    stereo.run(&p, &a, &b, &mut st_l, &mut st_r);
    // each channel behaves exactly as it would alone
    let mut mono_a = Subwoofer::new(fs);
    let mut ml = vec![0i64; 1024];
    let mut mr = vec![0i64; 1024];
    mono_a.run(&p, &a, &a, &mut ml, &mut mr);
    assert_eq!(st_l, ml);
    let mut mono_b = Subwoofer::new(fs);
    mono_b.run(&p, &b, &b, &mut ml, &mut mr);
    assert_eq!(st_r, mr);
}

#[test]
fn enhancement_adds_second_and_third_harmonics() {
    let fs = 48000.0;
    let n = 48000usize;
    let input = sine_block(60.0, 0.5, fs, n);

    // reference: mix amount zero, so the output is the dry signal only
    let mut reference = Subwoofer::new(hz(fs));
    let mut pref = params(false);
    pref.amt = 0;
    let mut ref_l = vec![0i64; n];
    let mut ref_r = vec![0i64; n];
    reference.run(&pref, &input, &input, &mut ref_l, &mut ref_r);

    // enhanced: mix 0.5, drive 2.0, blend 0.5
    let mut enhanced = Subwoofer::new(hz(fs));
    let p = params(false);
    let mut out_l = vec![0i64; n];
    let mut out_r = vec![0i64; n];
    enhanced.run(&p, &input, &input, &mut out_l, &mut out_r);

    let p120_ref = goertzel_power(&ref_l, fs, 120.0);
    let p180_ref = goertzel_power(&ref_l, fs, 180.0);
    let p120_enh = goertzel_power(&out_l, fs, 120.0);
    let p180_enh = goertzel_power(&out_l, fs, 180.0);

    // the reference has essentially no energy at the harmonics
    assert!(p120_ref < 1e-6, "reference 120 Hz power {}", p120_ref);
    assert!(p180_ref < 1e-6, "reference 180 Hz power {}", p180_ref);
    // the enhanced run has measurable harmonic energy, well above it
    assert!(p120_enh > 1e-4, "enhanced 120 Hz power {}", p120_enh);
    assert!(p180_enh > 1e-4, "enhanced 180 Hz power {}", p180_enh);
    assert!(p120_enh > 100.0 * p120_ref);
    assert!(p180_enh > 100.0 * p180_ref);
    // both channels are processed identically
    assert_eq!(out_l, out_r);
}
