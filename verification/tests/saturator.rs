//! Fixed-point arithmetic and saturator behavior.

use bankstown::fp::{clamp_i, fp_div, fp_mul, ONE, TEN};
use bankstown::sat::{tanh_fp, Distortion, GAIN_MAX, Z4};
use bankstown::params::ControlParams;

fn params(amt: i64, floor: i64, ceil: i64, sat2: i64, sat3: i64, blend: i64) -> ControlParams {
    ControlParams {
        bypass: false,
        amt,
        floor,
        ceil,
        sat_second: sat2,
        sat_third: sat3,
        blend,
    }
}

#[test]
fn fp_mul_exact_values() {
    // 3.0 * 5.0 == 15.0
    assert_eq!(fp_mul(3 * ONE, 5 * ONE), 15 * ONE);
    // -1.5 * 1.5 == -2.25
    assert_eq!(fp_mul(-98304, 98304), -147456);
    // the smallest representable values truncate toward zero
    assert_eq!(fp_mul(1, 1), 0);
    assert_eq!(fp_mul(-1, 1), 0);
}

#[test]
fn fp_div_exact_values() {
    // 15.0 / 5.0 == 3.0
    assert_eq!(fp_div(15 * ONE, 5 * ONE), 3 * ONE);
    // -1.0 / 3.0 truncates toward zero
    assert_eq!(fp_div(-ONE, 3 * ONE), -21845);
    assert_eq!(fp_div(ONE, 3 * ONE), 21845);
}

#[test]
fn clamp_exact_values() {
    assert_eq!(clamp_i(12 * ONE, -TEN, TEN), TEN);
    assert_eq!(clamp_i(-12 * ONE, -TEN, TEN), -TEN);
    assert_eq!(clamp_i(19661, -TEN, TEN), 19661);
}

#[test]
fn tanh_zero_and_saturation() {
    assert_eq!(tanh_fp(0), 0);
    assert_eq!(tanh_fp(Z4), ONE);
    assert_eq!(tanh_fp(-Z4), -ONE);
    assert_eq!(tanh_fp(Z4 + 12345), ONE);
    assert_eq!(tanh_fp(-(Z4 + 12345)), -ONE);
}

#[test]
fn tanh_exact_value_at_one() {
    // z = 1: z*(27 + 1)/(27 + 9) = 28/36 in fixed point, truncated
    assert_eq!(tanh_fp(ONE), 50972);
}

#[test]
fn tanh_tracks_the_real_function() {
    for z_milli in [-3500i64, -2000, -900, -300, 0, 300, 900, 2000, 3500] {
        let z = z_milli * ONE / 1000;
        let approx = tanh_fp(z) as f64 / ONE as f64;
        let exact = (z as f64 / ONE as f64).tanh();
        assert!(
            (approx - exact).abs() < 0.03,
            "tanh mismatch at {}: {} vs {}",
            z_milli,
            approx,
            exact
        );
    }
}

#[test]
fn tanh_is_odd() {
    for z in [123i64, 5000, 65536, 200000, 262144, 1 << 35] {
        assert_eq!(tanh_fp(z), -tanh_fp(-z));
    }
}

#[test]
fn saturator_output_is_bounded_for_extreme_inputs() {
    let mut d = Distortion::new();
    // push the gains far past the cap: update clamps them
    let p = params(ONE, 0, 0, i64::MAX / 2, i64::MIN / 2, ONE / 2);
    d.update_params(&p);
    assert_eq!(d.second_gain, GAIN_MAX);
    assert_eq!(d.third_gain, -GAIN_MAX);
    for s in [-(1i64 << 30), -TEN, -ONE, 0, 1, ONE, TEN, 1 << 30] {
        let y = d.process(s);
        assert!(-TEN <= y && y <= TEN, "saturator out of bounds: {}", y);
    }
}

#[test]
fn saturator_preserves_silence() {
    let mut d = Distortion::new();
    let p = params(ONE, 0, 0, 3 * ONE, 2 * ONE, ONE / 4);
    d.update_params(&p);
    assert_eq!(d.process(0), 0);
}

#[test]
fn saturator_blend_clamped_to_unit_range() {
    let mut d = Distortion::new();
    let p = params(ONE, 0, 0, ONE, ONE, 7 * ONE);
    d.update_params(&p);
    assert_eq!(d.coeff, ONE);
    let p2 = params(ONE, 0, 0, ONE, ONE, -3 * ONE);
    d.update_params(&p2);
    assert_eq!(d.coeff, 0);
}

#[test]
fn saturator_update_is_change_gated_and_idempotent() {
    let mut d = Distortion::new();
    let p = params(ONE, 0, 0, 2 * ONE, 3 * ONE, ONE / 2);
    d.update_params(&p);
    let once = d;
    d.update_params(&p);
    assert_eq!(d, once);
}
