use audio2mqtt::floats::{clamp_f32, finite_f32_or, finite_f64_or, max_f64, F32Bits, F64Bits};
use audio2mqtt::settings::{
    default_max_segment_seconds, default_min_segment_seconds, default_pre_roll_seconds,
    default_silence_cut_seconds, default_vad_threshold, F32_ONE, F32_ZERO,
    LEAST_MIN_SEGMENT_SECONDS, LEAST_PRE_ROLL_SECONDS, LEAST_SILENCE_CUT_SECONDS,
};

fn f32b(x: f32) -> F32Bits {
    F32Bits { bits: x.to_bits() }
}

fn f64b(x: f64) -> F64Bits {
    F64Bits { bits: x.to_bits() }
}

fn f32_samples() -> Vec<f32> {
    vec![
        0.0,
        -0.0,
        1.0,
        -1.0,
        0.55,
        0.5499999,
        0.5500001,
        f32::MIN,
        f32::MAX,
        f32::MIN_POSITIVE,
        1.0e-45,
        -1.0e-45,
        f32::INFINITY,
        f32::NEG_INFINITY,
        f32::NAN,
        -f32::NAN,
        2.0,
        -2.5,
    ]
}

fn f64_samples() -> Vec<f64> {
    vec![
        0.0,
        1.0,
        -1.0,
        0.1,
        0.05,
        30.0,
        1.2,
        0.4,
        f64::MIN,
        f64::MAX,
        f64::MIN_POSITIVE,
        5.0e-324,
        -5.0e-324,
        -2.5,
    ]
}

#[test]
fn patterns_of_the_settings_are_those_of_the_numbers() {
    assert_eq!(default_vad_threshold(), f32b(0.55));
    assert_eq!(default_min_segment_seconds(), f64b(1.0));
    assert_eq!(default_max_segment_seconds(), f64b(30.0));
    assert_eq!(default_silence_cut_seconds(), f64b(1.2));
    assert_eq!(default_pre_roll_seconds(), f64b(0.4));
    assert_eq!(F32_ZERO, 0.0f32.to_bits());
    assert_eq!(F32_ONE, 1.0f32.to_bits());
    assert_eq!(LEAST_MIN_SEGMENT_SECONDS, 0.1f64.to_bits());
    assert_eq!(LEAST_SILENCE_CUT_SECONDS, 0.05f64.to_bits());
    assert_eq!(LEAST_PRE_ROLL_SECONDS, 0.0f64.to_bits());
}

#[test]
fn f32_predicates_agree_with_std() {
    for &a in &f32_samples() {
        assert_eq!(f32b(a).is_finite(), a.is_finite());
        assert_eq!(f32b(a).is_nan(), a.is_nan());
        for &b in &f32_samples() {
            assert_eq!(f32b(a).at_least(f32b(b)), a >= b, "{a} {b}");
        }
    }
}

#[test]
fn f64_finiteness_agrees_with_std() {
    for &a in &f64_samples() {
        assert!(f64b(a).is_finite());
    }
    assert!(!f64b(f64::INFINITY).is_finite());
    assert!(!f64b(f64::NEG_INFINITY).is_finite());
    assert!(!f64b(f64::NAN).is_finite());
}

#[test]
fn numbers_that_are_not_finite_fall_back() {
    assert_eq!(finite_f32_or(f32b(0.25), f32b(0.5)), f32b(0.25));
    assert_eq!(finite_f32_or(f32b(f32::NAN), f32b(0.5)), f32b(0.5));
    assert_eq!(finite_f32_or(f32b(f32::INFINITY), f32b(0.5)), f32b(0.5));
    assert_eq!(finite_f64_or(f64b(-3.0), f64b(0.5)), f64b(-3.0));
    assert_eq!(finite_f64_or(f64b(f64::NAN), f64b(0.5)), f64b(0.5));
    assert_eq!(finite_f64_or(f64b(f64::NEG_INFINITY), f64b(0.5)), f64b(0.5));
}

#[test]
fn clamping_agrees_with_std() {
    for &a in &f32_samples() {
        if a.is_finite() {
            assert_eq!(clamp_f32(f32b(a), f32b(0.0), f32b(1.0)), f32b(a.clamp(0.0, 1.0)), "{a}");
        }
    }
}

#[test]
fn the_greater_number_agrees_with_std() {
    for &a in &f64_samples() {
        for &b in &f64_samples() {
            assert_eq!(max_f64(f64b(a), f64b(b)), f64b(a.max(b)), "{a} {b}");
        }
    }
}
