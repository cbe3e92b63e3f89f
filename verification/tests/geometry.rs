//! Unit tests for the geometry helpers and the integer arithmetic they
//! rest on.

use ballsim::geom::{calculate_edge, is_approx_colliding, is_colliding, next_frame_coords, next_frame_edge};
use ballsim::math::{clamp_sat, div_away_i128, div_trunc_i128, isqrt_u64};
use ballsim::vec2::Vec2;

#[test]
fn trunc_division_rounds_toward_zero() {
    assert_eq!(div_trunc_i128(7, 2), 3);
    assert_eq!(div_trunc_i128(-7, 2), -3);
    assert_eq!(div_trunc_i128(6, 3), 2);
    assert_eq!(div_trunc_i128(-6, 3), -2);
    assert_eq!(div_trunc_i128(0, 5), 0);
}

#[test]
fn away_division_rounds_away_from_zero() {
    assert_eq!(div_away_i128(7, 2), 4);
    assert_eq!(div_away_i128(-7, 2), -4);
    assert_eq!(div_away_i128(6, 3), 2);
    assert_eq!(div_away_i128(-6, 3), -2);
    assert_eq!(div_away_i128(0, 5), 0);
    assert_eq!(div_away_i128(1, 2), 1);
    assert_eq!(div_away_i128(-1, 2), -1);
}

#[test]
fn integer_square_root_is_the_floor() {
    assert_eq!(isqrt_u64(0), 0);
    assert_eq!(isqrt_u64(1), 1);
    assert_eq!(isqrt_u64(2), 1);
    assert_eq!(isqrt_u64(24), 4);
    assert_eq!(isqrt_u64(25), 5);
    assert_eq!(isqrt_u64(26), 5);
    assert_eq!(isqrt_u64(999_999_999_999), 999_999);
}

#[test]
fn clamping_saturates_at_the_coordinate_range() {
    assert_eq!(clamp_sat(123), 123);
    assert_eq!(clamp_sat(-123), -123);
    assert_eq!(clamp_sat(9_000_000), 8_000_000);
    assert_eq!(clamp_sat(-9_000_000), -8_000_000);
}

#[test]
fn edge_is_the_side_farther_from_the_origin() {
    assert_eq!(calculate_edge(50, 10), 60);
    assert_eq!(calculate_edge(-50, 10), -60);
    // zero is treated as the non-positive side
    assert_eq!(calculate_edge(0, 10), -10);
}

#[test]
fn extrapolation_is_position_plus_velocity_times_dt() {
    let p = Vec2 { x: 10, y: -20 };
    let v = Vec2 { x: 3, y: 7 };
    let n = next_frame_coords(p, v, 4);
    assert_eq!(n.x, 22);
    assert_eq!(n.y, 8);
    assert_eq!(next_frame_edge(95, 5, 10, 1), 110);
    assert_eq!(next_frame_edge(-95, -5, 10, 1), -110);
}

#[test]
fn box_overlap_is_strict() {
    let a = Vec2 { x: 0, y: 0 };
    // boxes touching exactly along x do not count as overlapping
    assert!(!is_approx_colliding(a, 5, Vec2 { x: 10, y: 0 }, 5));
    assert!(is_approx_colliding(a, 5, Vec2 { x: 9, y: 0 }, 5));
    assert!(!is_approx_colliding(a, 5, Vec2 { x: 0, y: 10 }, 5));
    assert!(is_approx_colliding(a, 5, Vec2 { x: 0, y: -9 }, 5));
    // diagonal: boxes overlap long before the circles do
    assert!(is_approx_colliding(a, 5, Vec2 { x: 9, y: 9 }, 5));
}

#[test]
fn circle_overlap_counts_touching() {
    let a = Vec2 { x: 0, y: 0 };
    // 3-4-5 triangle: centers exactly 5 apart
    let b = Vec2 { x: 3, y: 4 };
    assert!(is_colliding(a, 3, b, 2));
    assert!(is_colliding(a, 3, b, 3));
    assert!(!is_colliding(a, 2, b, 2));
    // diagonally touching boxes whose circles are clearly apart
    assert!(!is_colliding(a, 5, Vec2 { x: 9, y: 9 }, 5));
}
