//! Easing curves and fixed-point arithmetic: every curve is exact at the
//! endpoints, sample points match the hand-computed values, and numeric
//! blending is exact.

use pax_runtime_core::easing::EasingCurve;
use pax_runtime_core::interpolation::Interpolatable;
use pax_runtime_core::numeric::Numeric;

const ALL_CURVES: [EasingCurve; 6] = [
    EasingCurve::Linear,
    EasingCurve::InQuad,
    EasingCurve::OutQuad,
    EasingCurve::InBack,
    EasingCurve::OutBack,
    EasingCurve::InOutBack,
];

#[test]
fn every_curve_starts_at_zero_and_ends_at_one() {
    for curve in ALL_CURVES.iter() {
        assert_eq!(curve.multiplier(0), 0);
        assert_eq!(curve.multiplier(1000), 1000);
    }
}

#[test]
fn curve_sample_points_match() {
    assert_eq!(EasingCurve::Linear.multiplier(300), 300);
    assert_eq!(EasingCurve::InQuad.multiplier(300), 90);
    assert_eq!(EasingCurve::InQuad.multiplier(500), 250);
    assert_eq!(EasingCurve::OutQuad.multiplier(300), 510);
    assert_eq!(EasingCurve::OutQuad.multiplier(500), 750);
    // the back family overshoots: below zero early, above one late
    assert_eq!(EasingCurve::InBack.multiplier(500), -88);
    assert_eq!(EasingCurve::OutBack.multiplier(500), 1088);
    assert_eq!(EasingCurve::InOutBack.multiplier(250), -100);
    assert_eq!(EasingCurve::InOutBack.multiplier(750), 1100);
}

#[test]
fn interpolated_value_is_exact_at_endpoints() {
    for curve in ALL_CURVES.iter() {
        let v0 = Numeric::from_int(100);
        let v1 = Numeric::from_int(200);
        let at0 = v0.interpolate(&v1, curve.multiplier(0));
        let at1 = v0.interpolate(&v1, curve.multiplier(1000));
        assert_eq!(at0, Numeric::Fixed(100_000));
        assert_eq!(at1, Numeric::Fixed(200_000));
    }
}

#[test]
fn numeric_blends_linearly() {
    let a = Numeric::from_int(100);
    let b = Numeric::from_int(200);
    assert_eq!(a.interpolate(&b, 500), Numeric::Fixed(150_000));
    assert_eq!(a.interpolate(&b, 250), Numeric::Fixed(125_000));
    // overshoot multipliers run past the target
    assert_eq!(a.interpolate(&b, 1100), Numeric::Fixed(210_000));
}

#[test]
fn to_int_truncates_toward_zero() {
    assert_eq!(Numeric::Fixed(1500).to_int(), 1);
    assert_eq!(Numeric::Fixed(-1500).to_int(), -1);
    assert_eq!(Numeric::Fixed(999).to_int(), 0);
    assert_eq!(Numeric::Integer(7).to_int(), 7);
}

#[test]
fn arithmetic_is_exact() {
    let three = Numeric::from_int(3);
    let four = Numeric::from_int(4);
    assert_eq!(three.add(&four), Numeric::Integer(7));
    assert_eq!(three.sub(&four), Numeric::Integer(-1));
    assert_eq!(three.mul(&four), Numeric::Integer(12));
    assert_eq!(three.neg(), Numeric::Integer(-3));
    let half = Numeric::from_milli(1500);
    assert_eq!(half.mul(&Numeric::from_int(2)), Numeric::Fixed(3000));
    assert_eq!(half.add(&Numeric::from_int(1)), Numeric::Fixed(2500));
    assert!(half.is_fixed());
    assert!(!three.is_fixed());
}

#[test]
fn value_equality_reads_across_forms() {
    let one_int = Numeric::from_int(1);
    let one_fixed = Numeric::from_milli(1000);
    // structurally distinct forms of the same reading
    assert_ne!(one_int, one_fixed);
    assert!(one_int.value_eq(&one_fixed));
    assert!(!one_int.value_eq(&Numeric::from_milli(1001)));
}
