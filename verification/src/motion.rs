//! Per-tick movement models: drag, grounded and airborne horizontal target
//! velocity, vertical velocity, and the crouch rule.
//!
//! All quantities are fixed point (`SCALE` steps per world unit, see
//! `fixed`). Horizontal movement works on the XZ plane; the vertical axis
//! is handled separately with its own policy.

use vstd::prelude::*;
use crate::fixed::{SCALE, FX_LIMIT, mag, spec_mul_div, sqrt_floor, sqrt_ceil, mul_div,
    isqrt, isqrt_up, fx_min, fx_abs};

verus! {

/// Largest velocity magnitude, per axis, the movement models accept.
pub const VEL_LIMIT: i64 = 1_000_000_000;

/// The movement tuning parameters, fixed point.
pub struct MovementConfig {
    /// Grounded acceleration toward the input direction.
    pub acceleration: i64,
    /// Airborne acceleration toward the input direction.
    pub air_acceleration: i64,
    /// Largest grounded speed reachable by running.
    pub max_run_speed: i64,
    /// Largest airborne speed reachable by air control.
    pub max_air_movement_speed: i64,
    /// Below this speed, a grounded player with no input stops outright.
    pub stop_speed: i64,
    /// Upward velocity set by a standing jump.
    pub jump_delta_v: i64,
    /// Upward velocity set by a crouched jump.
    pub crouch_jump_delta_v: i64,
    /// Downward acceleration applied every airborne tick.
    pub acceleration_due_to_gravity: i64,
}

impl MovementConfig {
    /// All parameters are positive and small enough for the fixed-point
    /// arithmetic below.
    pub open spec fn wf(self) -> bool {
        &&& 0 < self.acceleration <= 1_000_000
        &&& 0 < self.air_acceleration <= 1_000_000
        &&& 0 < self.max_run_speed <= 1_000_000
        &&& 0 < self.max_air_movement_speed <= 1_000_000
        &&& 0 < self.stop_speed <= 1_000_000
        &&& 0 < self.jump_delta_v <= 1_000_000
        &&& 0 < self.crouch_jump_delta_v <= 1_000_000
        &&& 0 < self.acceleration_due_to_gravity <= 1_000_000
    }
}

/// The movement tuning of the reference player.
pub fn reference_movement_config() -> (c: MovementConfig)
    ensures
        c.wf(),
        c.acceleration == 80 * SCALE,
        c.air_acceleration == 10 * SCALE,
        c.max_run_speed == 5_500,
        c.max_air_movement_speed == 4 * SCALE,
        c.stop_speed == 1_500,
        c.jump_delta_v == 7_500,
        c.crouch_jump_delta_v == 6 * SCALE,
        c.acceleration_due_to_gravity == 19_600,
{
    MovementConfig {
        acceleration: 80_000,
        air_acceleration: 10_000,
        max_run_speed: 5_500,
        max_air_movement_speed: 4_000,
        stop_speed: 1_500,
        jump_delta_v: 7_500,
        crouch_jump_delta_v: 6_000,
        acceleration_due_to_gravity: 19_600,
    }
}

/// The capsule dimensions and collision tolerances of the player.
pub struct PlayerCollisionConfig {
    /// Half height of the standing capsule.
    pub standing_half_height: i64,
    /// Half height of the crouched capsule.
    pub crouched_half_height: i64,
    /// Tolerance distance kept between the capsule and any surface.
    pub skin_depth: i64,
    /// Radius of the capsule.
    pub collider_radius: i64,
}

impl PlayerCollisionConfig {
    /// All dimensions are positive and small enough for the fixed-point
    /// arithmetic below.
    pub open spec fn wf(self) -> bool {
        &&& 0 < self.standing_half_height <= 1_000_000
        &&& 0 < self.crouched_half_height <= 1_000_000
        &&& 0 < self.skin_depth <= 1_000_000
        &&& 0 < self.collider_radius <= 1_000_000
    }
}

/// The capsule dimensions of the reference player.
pub fn reference_collision_config() -> (c: PlayerCollisionConfig)
    ensures
        c.wf(),
        c.standing_half_height == SCALE,
        c.crouched_half_height == SCALE / 2,
        c.skin_depth == 10,
        c.collider_radius == SCALE / 4,
{
    PlayerCollisionConfig {
        standing_half_height: 1_000,
        crouched_half_height: 500,
        skin_depth: 10,
        collider_radius: 250,
    }
}

/// Whether any directional input is held.
pub open spec fn spec_any_input(ix: int, iz: int) -> bool {
    ix != 0 || iz != 0
}

/// Whether a velocity component and an input component point into opposite
/// half-lines (zero counting as positive, as the sign bit of a float does).
pub open spec fn spec_opposing(v: int, i: int) -> bool {
    (v >= 0) != (i >= 0)
}

/// Acceleration applied over one tick along one axis:
/// `accel * dt * input`, carried out in fixed point.
pub open spec fn spec_accel_delta(accel: int, dt: int, input: int) -> int {
    spec_mul_div(spec_mul_div(accel, dt, SCALE as int), input, SCALE as int)
}

/// Whether the grounded model regards the player as sliding: moving
/// distinctly faster than the run speed cap.
pub open spec fn spec_is_sliding(cfg: MovementConfig, vx: int, vz: int) -> bool {
    vx * vx + vz * vz > cfg.max_run_speed * cfg.max_run_speed + 1000
}

/// The speed-proportional damp amount `2.5 * speed * dt`, in `SCALE`
/// units: with `speed` and `dt` both carrying a factor of `SCALE`, the
/// dimensionless product keeps one.
pub open spec fn spec_turn_damp(speed: int, dt: int) -> int {
    5 * speed * dt / (2 * (SCALE as int))
}

/// The smaller of two integers.
pub open spec fn spec_int_min(a: int, b: int) -> int {
    if a <= b { a } else { b }
}

/// The larger of two integers.
pub open spec fn spec_int_max(a: int, b: int) -> int {
    if a >= b { a } else { b }
}

/// The grounded target velocity, exactly as `grounded_target_velocity`
/// computes it. Sliding (above the run speed cap) decays the velocity and
/// only lets opposing input decelerate; otherwise input accelerates, with a
/// per-axis damp on opposing axes for faster turnaround, and the result is
/// clamped to the run speed cap; with no input, movement below the stop
/// speed stops outright, and any other movement decays by the
/// speed-proportional damp fraction (capped at a full stop).
pub open spec fn spec_grounded_target(cfg: MovementConfig, vx: int, vz: int, ix: int, iz: int,
    dt: int) -> (int, int) {
    let max2 = cfg.max_run_speed * cfg.max_run_speed;
    let sq = vx * vx + vz * vz;
    if spec_is_sliding(cfg, vx, vz) {
        let f = (SCALE as int) - spec_int_min(5 * dt, SCALE as int);
        let tx0 = spec_mul_div(vx, f, SCALE as int);
        let tz0 = spec_mul_div(vz, f, SCALE as int);
        let tx = if spec_opposing(vx, ix) {
            tx0 + spec_accel_delta(cfg.acceleration as int, dt, ix)
        } else {
            tx0
        };
        let tz = if spec_opposing(vz, iz) {
            tz0 + spec_accel_delta(cfg.acceleration as int, dt, iz)
        } else {
            tz0
        };
        (tx, tz)
    } else if spec_any_input(ix, iz) {
        let s = sqrt_floor(sq);
        let f = (SCALE as int) - spec_int_min(spec_turn_damp(s, dt), SCALE as int);
        let tx0 = if spec_opposing(vx, ix) { spec_mul_div(vx, f, SCALE as int) } else { vx };
        let tz0 = if spec_opposing(vz, iz) { spec_mul_div(vz, f, SCALE as int) } else { vz };
        let tx = tx0 + spec_accel_delta(cfg.acceleration as int, dt, ix);
        let tz = tz0 + spec_accel_delta(cfg.acceleration as int, dt, iz);
        if tx * tx + tz * tz > max2 {
            let sc = sqrt_ceil(tx * tx + tz * tz);
            (spec_mul_div(tx, cfg.max_run_speed as int, sc), spec_mul_div(tz, cfg.max_run_speed as int, sc))
        } else {
            (tx, tz)
        }
    } else {
        if sq < cfg.stop_speed * cfg.stop_speed {
            (0, 0)
        } else {
            let s = sqrt_floor(sq);
            let f = (SCALE as int) - spec_int_min(spec_turn_damp(s, dt), SCALE as int);
            (spec_mul_div(vx, f, SCALE as int), spec_mul_div(vz, f, SCALE as int))
        }
    }
}

/// Acceleration applied over one tick along one axis, executable.
fn accel_delta(accel: i64, dt: i64, input: i64) -> (r: i64)
    requires
        0 < accel <= 1_000_000,
        0 < dt <= SCALE,
        mag(input as int) <= SCALE,
    ensures
        r == spec_accel_delta(accel as int, dt as int, input as int),
        mag(r as int) <= 1_000_000,
{
    proof {
        assert(mag(accel as int) * mag(dt as int) <= 1_000_000_000) by (nonlinear_arith)
            requires
                mag(accel as int) == accel, mag(dt as int) == dt,
                0 < accel <= 1_000_000i64, 0 < dt <= 1000i64;
    }
    let a = mul_div(accel, dt, SCALE);
    proof {
        assert(mag(a as int) * 1000 <= 1_000_000_000);
        assert(mag(a as int) <= 1_000_000);
        assert(mag(a as int) * mag(input as int) <= 1_000_000_000) by (nonlinear_arith)
            requires
                0 <= mag(a as int) <= 1_000_000,
                0 <= mag(input as int) <= 1000;
    }
    let r = mul_div(a, input, SCALE);
    proof {
        assert(mag(r as int) * 1000 <= mag(a as int) * mag(input as int));
        assert(mag(r as int) <= 1_000_000);
    }
    r
}

/// The speed-proportional damp amount `2.5 * speed * dt` in `SCALE`
/// units, executable.
fn turn_damp(s: i64, dt: i64) -> (r: i64)
    requires
        0 <= s <= 2_000_000_000,
        0 < dt <= SCALE,
    ensures
        r == spec_turn_damp(s as int, dt as int),
        r >= 0,
{
    proof {
        assert(0 <= 5 * (s as int) * (dt as int) <= 10_000_000_000_000) by (nonlinear_arith)
            requires 0 <= s <= 2_000_000_000i64, 0 < dt <= 1000i64;
        vstd::arithmetic::div_mod::lemma_div_is_ordered(0, 5 * (s as int) * (dt as int),
            2_000);
    }
    5 * s * dt / (2 * SCALE)
}

/// Scales `(tx, tz)` down to speed at most `max`, preserving its direction
/// up to rounding toward zero.
fn clamp_to_speed(tx: i64, tz: i64, max: i64) -> (r: (i64, i64))
    requires
        0 < max <= 1_000_000,
        mag(tx as int) <= 1_400_000_000,
        mag(tz as int) <= 1_400_000_000,
        tx * tx + tz * tz > max * max,
    ensures
        ({
            let sc = sqrt_ceil((tx * tx + tz * tz) as int);
            r.0 == spec_mul_div(tx as int, max as int, sc)
                && r.1 == spec_mul_div(tz as int, max as int, sc)
        }),
        r.0 * r.0 + r.1 * r.1 <= max * max,
{
    proof {
        assert(0 <= (tx as int) * (tx as int) <= 1_960_000_000_000_000_000) by (nonlinear_arith)
            requires mag(tx as int) <= 1_400_000_000;
        assert(0 <= (tz as int) * (tz as int) <= 1_960_000_000_000_000_000) by (nonlinear_arith)
            requires mag(tz as int) <= 1_400_000_000;
    }
    let sq = tx * tx + tz * tz;
    let sc = isqrt_up(sq);
    proof {
        assert(sq >= 1);
        assert(mag(tx as int) * mag(max as int) <= 1_400_000_000_000_000) by (nonlinear_arith)
            requires mag(tx as int) <= 1_400_000_000, 0 <= mag(max as int) <= 1_000_000;
        assert(mag(tz as int) * mag(max as int) <= 1_400_000_000_000_000) by (nonlinear_arith)
            requires mag(tz as int) <= 1_400_000_000, 0 <= mag(max as int) <= 1_000_000;
    }
    let rx = mul_div(tx, max, sc);
    let rz = mul_div(tz, max, sc);
    proof {
        let rxm = mag(rx as int);
        let rzm = mag(rz as int);
        let txm = mag(tx as int);
        let tzm = mag(tz as int);
        let m = max as int;
        let c = sc as int;
        assert(rxm * c <= txm * m);
        assert(rzm * c <= tzm * m);
        assert(rxm * rxm * (c * c) <= txm * txm * (m * m)) by (nonlinear_arith)
            requires rxm * c <= txm * m, rxm >= 0, c >= 1, txm >= 0, m >= 1;
        assert(rzm * rzm * (c * c) <= tzm * tzm * (m * m)) by (nonlinear_arith)
            requires rzm * c <= tzm * m, rzm >= 0, c >= 1, tzm >= 0, m >= 1;
        assert(txm * txm + tzm * tzm <= c * c) by (nonlinear_arith)
            requires
                c * c >= (tx as int) * (tx as int) + (tz as int) * (tz as int),
                txm == mag(tx as int),
                tzm == mag(tz as int);
        assert((rxm * rxm + rzm * rzm) * (c * c) <= (c * c) * (m * m)) by (nonlinear_arith)
            requires
                rxm * rxm * (c * c) <= txm * txm * (m * m),
                rzm * rzm * (c * c) <= tzm * tzm * (m * m),
                txm * txm + tzm * tzm <= c * c,
                rxm >= 0, rzm >= 0, txm >= 0, tzm >= 0, m >= 1, c >= 1;
        assert(rxm * rxm + rzm * rzm <= m * m) by (nonlinear_arith)
            requires
                (rxm * rxm + rzm * rzm) * (c * c) <= (c * c) * (m * m),
                c >= 1,
                rxm >= 0, rzm >= 0;
        assert((rx as int) * (rx as int) + (rz as int) * (rz as int) <= m * m)
            by (nonlinear_arith)
            requires
                rxm * rxm + rzm * rzm <= m * m,
                rxm == mag(rx as int),
                rzm == mag(rz as int);
    }
    (rx, rz)
}

/// Scales `v` by `f / SCALE` toward zero; the magnitude never grows when
/// `f` is at most `SCALE`.
fn decay(v: i64, f: i64) -> (r: i64)
    requires
        mag(v as int) <= VEL_LIMIT,
        0 <= f <= SCALE,
    ensures
        r == spec_mul_div(v as int, f as int, SCALE as int),
        mag(r as int) <= mag(v as int),
{
    proof {
        assert(mag(v as int) * mag(f as int) <= 1_000_000_000_000) by (nonlinear_arith)
            requires 0 <= mag(v as int) <= 1_000_000_000, 0 <= mag(f as int) <= 1000;
    }
    let r = mul_div(v, f, SCALE);
    proof {
        assert(mag(r as int) * 1000 <= mag(v as int) * mag(f as int));
        assert(mag(v as int) * mag(f as int) <= mag(v as int) * 1000) by (nonlinear_arith)
            requires mag(v as int) >= 0, mag(f as int) <= 1000;
        assert(mag(r as int) * 1000 <= mag(v as int) * 1000);
    }
    r
}

/// One grounded tick of the horizontal movement model. The result is the
/// target XZ velocity; with any input held while not sliding, its speed
/// never exceeds the run speed cap.
pub fn grounded_target_velocity(cfg: &MovementConfig, vx: i64, vz: i64, ix: i64, iz: i64,
    dt: i64) -> (r: (i64, i64))
    requires
        cfg.wf(),
        mag(vx as int) <= VEL_LIMIT,
        mag(vz as int) <= VEL_LIMIT,
        mag(ix as int) <= SCALE,
        mag(iz as int) <= SCALE,
        0 < dt <= SCALE,
    ensures
        r.0 == spec_grounded_target(*cfg, vx as int, vz as int, ix as int, iz as int, dt as int).0,
        r.1 == spec_grounded_target(*cfg, vx as int, vz as int, ix as int, iz as int, dt as int).1,
        !spec_is_sliding(*cfg, vx as int, vz as int) && spec_any_input(ix as int, iz as int)
            ==> r.0 * r.0 + r.1 * r.1 <= cfg.max_run_speed * cfg.max_run_speed,
{
    proof {
        assert(0 <= (vx as int) * (vx as int) <= 1_000_000_000_000_000_000) by (nonlinear_arith)
            requires mag(vx as int) <= 1_000_000_000;
        assert(0 <= (vz as int) * (vz as int) <= 1_000_000_000_000_000_000) by (nonlinear_arith)
            requires mag(vz as int) <= 1_000_000_000;
        assert(0 <= cfg.max_run_speed * cfg.max_run_speed <= 1_000_000_000_000)
            by (nonlinear_arith)
            requires 0 < cfg.max_run_speed <= 1_000_000;
        assert(0 <= cfg.stop_speed * cfg.stop_speed <= 1_000_000_000_000)
            by (nonlinear_arith)
            requires 0 < cfg.stop_speed <= 1_000_000;
    }
    let sq = vx * vx + vz * vz;
    let max2 = cfg.max_run_speed * cfg.max_run_speed;
    if sq > max2 + 1000 {
        let f = SCALE - fx_min(5 * dt, SCALE);
        let tx0 = decay(vx, f);
        let tz0 = decay(vz, f);
        let tx = if (vx >= 0) != (ix >= 0) {
            tx0 + accel_delta(cfg.acceleration, dt, ix)
        } else {
            tx0
        };
        let tz = if (vz >= 0) != (iz >= 0) {
            tz0 + accel_delta(cfg.acceleration, dt, iz)
        } else {
            tz0
        };
        (tx, tz)
    } else if ix != 0 || iz != 0 {
        let s = isqrt(sq);
        let f = SCALE - fx_min(turn_damp(s, dt), SCALE);
        let tx0 = if (vx >= 0) != (ix >= 0) { decay(vx, f) } else { vx };
        let tz0 = if (vz >= 0) != (iz >= 0) { decay(vz, f) } else { vz };
        let tx = tx0 + accel_delta(cfg.acceleration, dt, ix);
        let tz = tz0 + accel_delta(cfg.acceleration, dt, iz);
        proof {
            assert(0 <= (tx as int) * (tx as int) <= 1_020_100_000_000_000_000)
                by (nonlinear_arith)
                requires mag(tx as int) <= 1_001_000_000;
            assert(0 <= (tz as int) * (tz as int) <= 1_020_100_000_000_000_000)
                by (nonlinear_arith)
                requires mag(tz as int) <= 1_001_000_000;
        }
        if tx * tx + tz * tz > max2 {
            clamp_to_speed(tx, tz, cfg.max_run_speed)
        } else {
            (tx, tz)
        }
    } else {
        if sq < cfg.stop_speed * cfg.stop_speed {
            (0, 0)
        } else {
            let s = isqrt(sq);
            let f = SCALE - fx_min(turn_damp(s, dt), SCALE);
            (decay(vx, f), decay(vz, f))
        }
    }
}

/// The airborne target velocity, exactly as `air_target_velocity` computes
/// it. Air acceleration applies per axis, but only where it would not push
/// the speed past the air cap — except that deceleration is always allowed;
/// when an axis is held back and the current speed is below the redirect
/// threshold, the velocity is redirected toward the blocked target while
/// keeping its magnitude.
pub open spec fn spec_air_target(cfg: MovementConfig, vx: int, vz: int, ix: int, iz: int,
    dt: int) -> (int, int) {
    let tx = vx + spec_accel_delta(cfg.air_acceleration as int, dt, ix);
    let tz = vz + spec_accel_delta(cfg.air_acceleration as int, dt, iz);
    let maxa2 = cfg.max_air_movement_speed * cfg.max_air_movement_speed;
    let can_accelerate = tx * tx + tz * tz < maxa2;
    let rx = if can_accelerate || mag(tx) < mag(vx) { tx } else { vx };
    let rz = if can_accelerate || mag(tz) < mag(vz) { tz } else { vz };
    if !(rx == tx && rz == tz) {
        let threshold2 = spec_int_max(cfg.max_run_speed * cfg.max_run_speed, maxa2 as int);
        let cur2 = rx * rx + rz * rz;
        if cur2 < threshold2 {
            let sc = sqrt_floor(cur2);
            let st = sqrt_floor(tx * tx + tz * tz);
            (spec_mul_div(tx, sc, st), spec_mul_div(tz, sc, st))
        } else {
            (rx, rz)
        }
    } else {
        (rx, rz)
    }
}

/// One airborne tick of the horizontal movement model. The result is the
/// target XZ velocity; when the per-axis targets all reduce or keep their
/// components (and at least one strictly reduces), the speed strictly
/// drops, even above the air speed cap — deceleration is never blocked.
pub fn air_target_velocity(cfg: &MovementConfig, vx: i64, vz: i64, ix: i64, iz: i64,
    dt: i64) -> (r: (i64, i64))
    requires
        cfg.wf(),
        mag(vx as int) <= VEL_LIMIT,
        mag(vz as int) <= VEL_LIMIT,
        mag(ix as int) <= SCALE,
        mag(iz as int) <= SCALE,
        0 < dt <= SCALE,
    ensures
        r.0 == spec_air_target(*cfg, vx as int, vz as int, ix as int, iz as int, dt as int).0,
        r.1 == spec_air_target(*cfg, vx as int, vz as int, ix as int, iz as int, dt as int).1,
        ({
            let tx = vx + spec_accel_delta(cfg.air_acceleration as int, dt as int, ix as int);
            let tz = vz + spec_accel_delta(cfg.air_acceleration as int, dt as int, iz as int);
            (mag(tx) < mag(vx as int) || tx == vx) && (mag(tz) < mag(vz as int) || tz == vz)
                && !(tx == vx && tz == vz)
        }) ==> r.0 * r.0 + r.1 * r.1 < vx * vx + vz * vz,
{
    proof {
        assert(0 <= cfg.max_air_movement_speed * cfg.max_air_movement_speed
            <= 1_000_000_000_000) by (nonlinear_arith)
            requires 0 < cfg.max_air_movement_speed <= 1_000_000;
        assert(0 <= cfg.max_run_speed * cfg.max_run_speed <= 1_000_000_000_000)
            by (nonlinear_arith)
            requires 0 < cfg.max_run_speed <= 1_000_000;
    }
    let tx = vx + accel_delta(cfg.air_acceleration, dt, ix);
    let tz = vz + accel_delta(cfg.air_acceleration, dt, iz);
    proof {
        assert(0 <= (tx as int) * (tx as int) <= 1_020_100_000_000_000_000) by (nonlinear_arith)
            requires mag(tx as int) <= 1_001_000_000;
        assert(0 <= (tz as int) * (tz as int) <= 1_020_100_000_000_000_000) by (nonlinear_arith)
            requires mag(tz as int) <= 1_001_000_000;
        assert(0 <= (vx as int) * (vx as int) <= 1_000_000_000_000_000_000) by (nonlinear_arith)
            requires mag(vx as int) <= 1_000_000_000;
        assert(0 <= (vz as int) * (vz as int) <= 1_000_000_000_000_000_000) by (nonlinear_arith)
            requires mag(vz as int) <= 1_000_000_000;
    }
    let maxa2 = cfg.max_air_movement_speed * cfg.max_air_movement_speed;
    let can_accelerate = tx * tx + tz * tz < maxa2;
    let rx = if can_accelerate || fx_abs(tx) < fx_abs(vx) { tx } else { vx };
    let rz = if can_accelerate || fx_abs(tz) < fx_abs(vz) { tz } else { vz };
    let result = if !(rx == tx && rz == tz) {
        let run2 = cfg.max_run_speed * cfg.max_run_speed;
        let threshold2 = if run2 >= maxa2 { run2 } else { maxa2 };
        let cur2 = rx * rx + rz * rz;
        if cur2 < threshold2 {
            let sc = isqrt(cur2);
            let st = isqrt(tx * tx + tz * tz);
            proof {
                if tx == 0 && tz == 0 {
                    assert(maxa2 >= 1);
                    assert(false);
                }
                assert((tx as int) * (tx as int) + (tz as int) * (tz as int) >= 1)
                    by (nonlinear_arith)
                    requires !(tx == 0i64 && tz == 0i64);
                assert(st >= 1) by (nonlinear_arith)
                    requires
                        (tx as int) * (tx as int) + (tz as int) * (tz as int) >= 1,
                        (tx as int) * (tx as int) + (tz as int) * (tz as int)
                            < (st as int + 1) * (st as int + 1),
                        st >= 0i64;
                assert(mag(tx as int) * mag(sc as int) <= 4_000_000_000_000_000_000)
                    by (nonlinear_arith)
                    requires mag(tx as int) <= 1_001_000_000, 0 <= mag(sc as int),
                        sc <= 2_000_000_000i64, mag(sc as int) == sc;
                assert(mag(tz as int) * mag(sc as int) <= 4_000_000_000_000_000_000)
                    by (nonlinear_arith)
                    requires mag(tz as int) <= 1_001_000_000, 0 <= mag(sc as int),
                        sc <= 2_000_000_000i64, mag(sc as int) == sc;
            }
            (mul_div(tx, sc, st), mul_div(tz, sc, st))
        } else {
            (rx, rz)
        }
    } else {
        (rx, rz)
    };
    proof {
        let txi = tx as int;
        let tzi = tz as int;
        let vxi = vx as int;
        let vzi = vz as int;
        if (mag(txi) < mag(vxi) || txi == vxi) && (mag(tzi) < mag(vzi) || tzi == vzi)
            && !(txi == vxi && tzi == vzi) {
            assert(rx == tx && rz == tz);
            assert(result == (tx, tz));
            assert(txi * txi <= vxi * vxi) by (nonlinear_arith)
                requires mag(txi) < mag(vxi) || txi == vxi;
            assert(tzi * tzi <= vzi * vzi) by (nonlinear_arith)
                requires mag(tzi) < mag(vzi) || tzi == vzi;
            if txi != vxi {
                assert(txi * txi < vxi * vxi) by (nonlinear_arith)
                    requires mag(txi) < mag(vxi);
            } else {
                assert(tzi * tzi < vzi * vzi) by (nonlinear_arith)
                    requires mag(tzi) < mag(vzi);
            }
        }
    }
    result
}

/// One tick of aerodynamic drag on the full velocity, exactly as
/// `apply_drag` computes it: the drag speed loss `speed^2 * 1.225 * dt /
/// 200` comes off the speed, scaling the velocity toward zero, and a speed
/// that would drop below zero snaps to zero.
pub open spec fn spec_drag(vx: int, vy: int, vz: int, dt: int) -> (int, int, int) {
    let sq = vx * vx + vy * vy + vz * vz;
    let s = sqrt_floor(sq);
    let d = s * s / (SCALE as int) * 1225 / 1000 * dt / (SCALE as int) / 200;
    if sq == 0 {
        (vx, vy, vz)
    } else if s < d {
        (0, 0, 0)
    } else {
        (spec_mul_div(vx, s - d, s), spec_mul_div(vy, s - d, s), spec_mul_div(vz, s - d, s))
    }
}

/// Applies one tick of aerodynamic drag to the velocity. No component's
/// magnitude ever grows.
pub fn apply_drag(vx: i64, vy: i64, vz: i64, dt: i64) -> (r: (i64, i64, i64))
    requires
        mag(vx as int) <= VEL_LIMIT,
        mag(vy as int) <= VEL_LIMIT,
        mag(vz as int) <= VEL_LIMIT,
        0 < dt <= SCALE,
    ensures
        r.0 == spec_drag(vx as int, vy as int, vz as int, dt as int).0,
        r.1 == spec_drag(vx as int, vy as int, vz as int, dt as int).1,
        r.2 == spec_drag(vx as int, vy as int, vz as int, dt as int).2,
        mag(r.0 as int) <= mag(vx as int),
        mag(r.1 as int) <= mag(vy as int),
        mag(r.2 as int) <= mag(vz as int),
{
    proof {
        assert(0 <= (vx as int) * (vx as int) <= 1_000_000_000_000_000_000) by (nonlinear_arith)
            requires mag(vx as int) <= 1_000_000_000;
        assert(0 <= (vy as int) * (vy as int) <= 1_000_000_000_000_000_000) by (nonlinear_arith)
            requires mag(vy as int) <= 1_000_000_000;
        assert(0 <= (vz as int) * (vz as int) <= 1_000_000_000_000_000_000) by (nonlinear_arith)
            requires mag(vz as int) <= 1_000_000_000;
    }
    let sq = vx * vx + vy * vy + vz * vz;
    if sq == 0 {
        (vx, vy, vz)
    } else {
        let s = isqrt(sq);
        proof {
            assert(s * s >= 0) by (nonlinear_arith)
                requires s >= 0i64;
        }
        let a1 = s * s;
        let a2 = a1 / SCALE;
        proof {
            vstd::arithmetic::div_mod::lemma_div_is_ordered(a1 as int, 3_000_000_000_000_000_000,
                SCALE as int);
            vstd::arithmetic::div_mod::lemma_div_is_ordered(0, a1 as int, SCALE as int);
        }
        let a3 = a2 * 1225;
        let a4 = a3 / 1000;
        proof {
            vstd::arithmetic::div_mod::lemma_div_is_ordered(a3 as int, 3_675_000_000_000_000_000,
                1000);
            vstd::arithmetic::div_mod::lemma_div_is_ordered(0, a3 as int, 1000);
            assert(0 <= (a4 as int) * (dt as int) <= 3_675_000_000_000_000_000)
                by (nonlinear_arith)
                requires 0 <= a4 <= 3_675_000_000_000_000i64, 0 < dt <= 1000i64;
        }
        let a5 = a4 * dt;
        let d = a5 / SCALE / 200;
        if s < d {
            (0, 0, 0)
        } else {
            let k = s - d;
            proof {
                assert(sq >= 1);
                assert(s >= 1) by (nonlinear_arith)
                    requires
                        sq >= 1i64,
                        (sq as int) < (s as int + 1) * (s as int + 1),
                        s >= 0i64;
                assert(d >= 0) by {
                    vstd::arithmetic::div_mod::lemma_div_is_ordered(0, a5 as int, SCALE as int);
                    vstd::arithmetic::div_mod::lemma_div_is_ordered(0, (a5 / SCALE) as int, 200);
                }
            }
            let r = (scale_velocity(vx, k, s), scale_velocity(vy, k, s), scale_velocity(vz, k, s));
            r
        }
    }
}

/// Scales velocity component `v` by the non-negative factor `k / s`, with
/// `k` at most `s`: the magnitude never grows.
fn scale_velocity(v: i64, k: i64, s: i64) -> (r: i64)
    requires
        mag(v as int) <= VEL_LIMIT,
        0 <= k <= s,
        1 <= s <= 2_000_000_000,
    ensures
        r == spec_mul_div(v as int, k as int, s as int),
        mag(r as int) <= mag(v as int),
{
    proof {
        assert(mag(v as int) * mag(k as int) <= 2_000_000_000_000_000_000) by (nonlinear_arith)
            requires 0 <= mag(v as int) <= 1_000_000_000, 0 <= mag(k as int) <= 2_000_000_000;
    }
    let r = mul_div(v, k, s);
    proof {
        assert(mag(r as int) * (s as int) <= mag(v as int) * mag(k as int));
        assert(mag(v as int) * mag(k as int) <= mag(v as int) * (s as int)) by (nonlinear_arith)
            requires mag(v as int) >= 0, mag(k as int) <= s, mag(k as int) == k, k <= s;
        assert(mag(r as int) * (s as int) <= mag(v as int) * (s as int));
        assert(mag(r as int) <= mag(v as int)) by (nonlinear_arith)
            requires mag(r as int) * (s as int) <= mag(v as int) * (s as int), s >= 1;
    }
    r
}

/// The vertical velocity for one tick: a requested jump replaces the
/// vertical momentum outright with the standing or crouched jump impulse;
/// otherwise gravity pulls the current vertical velocity down.
pub fn vertical_velocity(cfg: &MovementConfig, vy: i64, jump_requested: bool,
    is_crouched: bool, dt: i64) -> (r: i64)
    requires
        cfg.wf(),
        mag(vy as int) <= VEL_LIMIT,
        0 < dt <= SCALE,
    ensures
        jump_requested && is_crouched ==> r == cfg.crouch_jump_delta_v,
        jump_requested && !is_crouched ==> r == cfg.jump_delta_v,
        !jump_requested ==> r as int == vy - spec_mul_div(
            cfg.acceleration_due_to_gravity as int, dt as int, SCALE as int),
{
    if jump_requested {
        if is_crouched { cfg.crouch_jump_delta_v } else { cfg.jump_delta_v }
    } else {
        proof {
            assert(mag(cfg.acceleration_due_to_gravity as int) * mag(dt as int)
                <= 1_000_000_000) by (nonlinear_arith)
                requires
                    0 < cfg.acceleration_due_to_gravity <= 1_000_000,
                    0 < dt <= 1000i64,
                    mag(cfg.acceleration_due_to_gravity as int)
                        == cfg.acceleration_due_to_gravity,
                    mag(dt as int) == dt;
        }
        let gd = mul_div(cfg.acceleration_due_to_gravity, dt, SCALE);
        proof {
            assert(mag(gd as int) * 1000 <= 1_000_000_000);
            assert(mag(gd as int) <= 1_000_000);
        }
        vy - gd
    }
}

/// Whether releasing the crouch key must first probe for standing
/// clearance: only a crouched player with crouch released needs the check.
pub fn needs_stand_clearance(is_crouched: bool, crouch_requested: bool) -> (r: bool)
    ensures
        r == (is_crouched && !crouch_requested),
{
    is_crouched && !crouch_requested
}

/// The crouch state after one tick. Holding crouch crouches; releasing it
/// stands the player up unless the standing capsule would overlap geometry
/// (`stand_blocked`), in which case the crouch is forcibly retained.
pub fn update_crouch(is_crouched: bool, crouch_requested: bool, stand_blocked: bool)
    -> (r: bool)
    ensures
        r == (crouch_requested || (is_crouched && stand_blocked)),
        is_crouched && !crouch_requested && stand_blocked ==> r,
        is_crouched && !crouch_requested && !stand_blocked ==> !r,
{
    if crouch_requested {
        true
    } else if is_crouched {
        stand_blocked
    } else {
        false
    }
}

/// The capsule half height in force for a crouch state.
pub fn half_height(cfg: &PlayerCollisionConfig, is_crouched: bool) -> (r: i64)
    ensures
        r == if is_crouched { cfg.crouched_half_height } else { cfg.standing_half_height },
{
    if is_crouched { cfg.crouched_half_height } else { cfg.standing_half_height }
}

/// The velocity a positional change over one tick amounts to, per axis:
/// displacement divided by the tick length.
pub fn velocity_from_displacement(delta: i64, dt: i64) -> (r: i64)
    requires
        mag(delta as int) <= FX_LIMIT,
        0 < dt <= SCALE,
    ensures
        r == spec_mul_div(delta as int, SCALE as int, dt as int),
{
    proof {
        assert(mag(delta as int) * 1000 <= 2_000_000_000_000_000) by (nonlinear_arith)
            requires 0 <= mag(delta as int) <= 2_000_000_000_000;
    }
    mul_div(delta, SCALE, dt)
}
} // verus!
