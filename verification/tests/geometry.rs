//! Fixed-point geometry: arithmetic, boxes, interpolation, normalization.

use cary::math::{Vec2, Bounds, div_trunc, mul_frac, isqrt};

#[test]
fn truncating_division_rounds_toward_zero() {
    assert_eq!(div_trunc(7, 2), 3);
    assert_eq!(div_trunc(-7, 2), -3);
    assert_eq!(div_trunc(0, 25), 0);
    assert_eq!(div_trunc(-33, 25), -1);
    assert_eq!(div_trunc(33, 25), 1);
}

#[test]
fn fraction_scaling_matches_expected_values() {
    // one tick of ground friction on a velocity of 1800
    assert_eq!(mul_frac(1800, 82, 100), 1476);
    assert_eq!(mul_frac(-1800, 82, 100), -1476);
    // one tick of dive damping
    assert_eq!(mul_frac(4000, 80, 100), 3200);
}

#[test]
fn integer_square_root_brackets_the_input() {
    assert_eq!(isqrt(0), 0);
    assert_eq!(isqrt(1), 1);
    assert_eq!(isqrt(24), 4);
    assert_eq!(isqrt(25), 5);
    assert_eq!(isqrt(26), 5);
    assert_eq!(isqrt(4_500_000_000_000_000_000), 2_121_320_343);
}

#[test]
fn vector_length_and_distance() {
    assert_eq!(Vec2(3000, 4000).len(), 5000);
    assert_eq!(Vec2(0, 0).len(), 0);
    assert_eq!(Vec2(1000, 0).dist(Vec2(0, 0)), 1000);
    assert_eq!(Vec2(0, 0).dist(Vec2(3, 4)), 5);
}

#[test]
fn normalization_scales_to_unit_length() {
    assert_eq!(Vec2(3, 4).norm(), Vec2(600, 800));
    assert_eq!(Vec2(0, 5).norm(), Vec2(0, 1000));
    assert_eq!(Vec2(-5, 0).norm(), Vec2(-1000, 0));
}

#[test]
fn quarter_turn_rotation_is_clockwise() {
    let v = Vec2(0, -100);
    assert_eq!(v.rotated(0), Vec2(0, -100));
    assert_eq!(v.rotated(1), Vec2(-100, 0));
    assert_eq!(v.rotated(2), Vec2(0, 100));
    assert_eq!(v.rotated(3), Vec2(100, 0));
    assert_eq!(v.rotated(4), Vec2(0, -100));
}

#[test]
fn lerp_hits_both_endpoints_exactly() {
    let a = Vec2(-2000, 500);
    let b = Vec2(6000, -1500);
    assert_eq!(a.lerp(b, 0), a);
    assert_eq!(a.lerp(b, 1000), b);
    // progress outside the range clamps
    assert_eq!(a.lerp(b, -5), a);
    assert_eq!(a.lerp(b, 1500), b);
}

#[test]
fn lerp_is_monotonic_between_the_endpoints() {
    let a = Vec2(0, 1000);
    let b = Vec2(1000, 0);
    let mut prev_x = i64::MIN;
    let mut prev_y = i64::MAX;
    for t in 0..=10 {
        let p = a.lerp(b, t * 100);
        assert!(p.0 >= prev_x);
        assert!(p.1 <= prev_y);
        prev_x = p.0;
        prev_y = p.1;
    }
    assert_eq!(a.lerp(b, 500), Vec2(500, 500));
}

#[test]
fn boxes_around_a_center() {
    let b = Bounds::around(Vec2(0, 500), Vec2(1000, 1000));
    assert_eq!(b.min, Vec2(-500, 0));
    assert_eq!(b.max, Vec2(500, 1000));
    assert_eq!(b.center(), Vec2(0, 500));
    assert_eq!(b.size(), Vec2(1000, 1000));
}

#[test]
fn overlap_is_strict_on_shared_edges() {
    let a = Bounds { min: Vec2(0, 0), max: Vec2(1000, 1000) };
    let touching = Bounds { min: Vec2(1000, 0), max: Vec2(2000, 1000) };
    let crossing = Bounds { min: Vec2(999, 0), max: Vec2(2000, 1000) };
    assert!(!a.overlapps(touching));
    assert!(a.overlapps(crossing));
    assert!(!touching.overlapps(a));
}

#[test]
fn containment_is_strictly_inside() {
    let b = Bounds { min: Vec2(0, 0), max: Vec2(1000, 1000) };
    assert!(b.contains(Vec2(500, 500)));
    assert!(!b.contains(Vec2(0, 500)));
    assert!(!b.contains(Vec2(500, 1000)));
}

#[test]
fn translation_shifts_both_corners() {
    let b = Bounds { min: Vec2(0, 0), max: Vec2(1000, 1000) };
    let t = b.translated(Vec2(-250, 4000));
    assert_eq!(t.min, Vec2(-250, 4000));
    assert_eq!(t.max, Vec2(750, 5000));
}
