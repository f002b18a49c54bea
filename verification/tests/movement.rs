use vorld::fixed::{isqrt, isqrt_up, mul_div, div_trunc, SCALE};
use vorld::motion::{
    air_target_velocity, apply_drag, grounded_target_velocity, half_height,
    needs_stand_clearance, reference_collision_config, reference_movement_config,
    update_crouch, velocity_from_displacement, vertical_velocity,
};

#[test]
fn fixed_point_helpers() {
    assert_eq!(isqrt(0), 0);
    assert_eq!(isqrt(1), 1);
    assert_eq!(isqrt(2), 1);
    assert_eq!(isqrt(4), 2);
    assert_eq!(isqrt(999_999), 999);
    assert_eq!(isqrt(1_000_000), 1000);
    assert_eq!(isqrt_up(1_000_000), 1000);
    assert_eq!(isqrt_up(1_000_001), 1001);
    assert_eq!(mul_div(6, 7, 2), 21);
    assert_eq!(mul_div(-7, 3, 2), -10);
    assert_eq!(mul_div(7, -3, 2), -10);
    assert_eq!(mul_div(-7, -3, 2), 10);
    assert_eq!(div_trunc(-7, 2), -3);
    assert_eq!(div_trunc(7, 2), 3);
}

#[test]
fn grounded_speed_clamped_from_rest() {
    let cfg = reference_movement_config();
    // One tick of full forward input from rest.
    let (vx, vz) = grounded_target_velocity(&cfg, 0, 0, 0, SCALE, 16);
    assert_eq!((vx, vz), (0, 1280));
    let speed_sq = vx * vx + vz * vz;
    assert!(speed_sq <= cfg.max_run_speed * cfg.max_run_speed);
}

#[test]
fn grounded_speed_clamped_near_cap() {
    let cfg = reference_movement_config();
    // Running at 5.0 and accelerating would pass the 5.5 cap; the result
    // is clamped to it exactly.
    let (vx, vz) = grounded_target_velocity(&cfg, 5_000, 0, SCALE, 0, 16);
    assert_eq!((vx, vz), (5_500, 0));
    assert!(vx * vx + vz * vz <= cfg.max_run_speed * cfg.max_run_speed);
}

#[test]
fn grounded_no_input_decays_smoothly() {
    let cfg = reference_movement_config();
    // Above the stop speed with no input: the speed-proportional damp
    // (2.5 * 3.0 * 0.016 = 12%) comes off the velocity.
    let (vx, vz) = grounded_target_velocity(&cfg, 3_000, 0, 0, 0, 16);
    assert_eq!((vx, vz), (2_640, 0));
}

#[test]
fn grounded_opposing_input_damps_then_accelerates() {
    let cfg = reference_movement_config();
    // Running +X while holding -X: the axis is damped for faster
    // turnaround, then the opposing acceleration applies.
    let (vx, vz) = grounded_target_velocity(&cfg, 3_000, 0, -SCALE, 0, 16);
    assert_eq!((vx, vz), (1_360, 0));
}

#[test]
fn grounded_stop_snaps_slow_movement() {
    let cfg = reference_movement_config();
    // Under the stop speed with no input: outright stop.
    let (vx, vz) = grounded_target_velocity(&cfg, 1_000, 500, 0, 0, 16);
    assert_eq!((vx, vz), (0, 0));
}

#[test]
fn air_speed_cap_allows_deceleration() {
    let cfg = reference_movement_config();
    // Above the 4.0 air cap; input opposite to the velocity must still
    // reduce speed.
    let (vx, vz) = air_target_velocity(&cfg, 5_000, 0, -SCALE, 0, 16);
    assert_eq!((vx, vz), (4_840, 0));
    assert!(vx * vx + vz * vz < 5_000i64 * 5_000);
}

#[test]
fn air_speed_cap_blocks_acceleration() {
    let cfg = reference_movement_config();
    // Above the cap with input along the velocity: the axis keeps its
    // velocity instead of accelerating.
    let (vx, vz) = air_target_velocity(&cfg, 5_000, 0, SCALE, 0, 16);
    assert_eq!((vx, vz), (5_000, 0));
}

#[test]
fn drag_reduces_speed_and_snaps_to_zero() {
    // 100 units per second for a full second of drag.
    let (vx, vy, vz) = apply_drag(100_000, 0, 0, 1_000);
    assert_eq!((vx, vy, vz), (38_750, 0, 0));
    // Zero velocity is unchanged.
    assert_eq!(apply_drag(0, 0, 0, 16), (0, 0, 0));
    // Drag never increases any component's magnitude.
    let (wx, wy, wz) = apply_drag(3_000, -2_000, 1_000, 16);
    assert!(wx.abs() <= 3_000 && wy.abs() <= 2_000 && wz.abs() <= 1_000);
}

#[test]
fn jump_replaces_vertical_momentum() {
    let cfg = reference_movement_config();
    assert_eq!(vertical_velocity(&cfg, -9_000, true, false, 16), 7_500);
    assert_eq!(vertical_velocity(&cfg, -9_000, true, true, 16), 6_000);
    // Gravity: 19.6 over 16 milliseconds.
    assert_eq!(vertical_velocity(&cfg, 0, false, false, 16), -313);
    assert_eq!(vertical_velocity(&cfg, 1_000, false, false, 16), 687);
}

#[test]
fn crouch_stand_up_blocked() {
    assert!(needs_stand_clearance(true, false));
    assert!(!needs_stand_clearance(false, false));
    assert!(!needs_stand_clearance(true, true));
    // Releasing crouch with standing room blocked retains the crouch.
    assert_eq!(update_crouch(true, false, true), true);
    assert_eq!(update_crouch(true, false, false), false);
    assert_eq!(update_crouch(false, true, false), true);
    assert_eq!(update_crouch(true, true, false), true);
    assert_eq!(update_crouch(false, false, false), false);
}

#[test]
fn half_height_follows_crouch_state() {
    let cfg = reference_collision_config();
    assert_eq!(half_height(&cfg, false), 1_000);
    assert_eq!(half_height(&cfg, true), 500);
}

#[test]
fn velocity_derived_from_displacement() {
    assert_eq!(velocity_from_displacement(480, 16), 30_000);
    assert_eq!(velocity_from_displacement(-480, 16), -30_000);
    assert_eq!(velocity_from_displacement(0, 16), 0);
}
