//! Look-angle bookkeeping: yaw wraps modulo a full turn, pitch is clamped
//! short of vertical.
//!
//! Angles are fixed point in milliradians. The mouse delta is scaled by
//! the rotation speed (a tenth) and the tick length before it turns the
//! camera.

use vstd::prelude::*;
use crate::fixed::{SCALE, mag, spec_mul_div, mul_div};

verus! {

/// One full turn, in milliradians.
pub const FULL_TURN: i64 = 6_283;

/// The largest pitch magnitude, in milliradians: ten degrees short of
/// straight up or down.
pub const PITCH_LIMIT: i64 = 1_396;

/// Largest mouse delta accepted per tick.
pub const LOOK_DELTA_LIMIT: i64 = 1_000_000;

/// The scaled yaw and pitch change of one tick's mouse motion along one
/// axis: a tenth of the delta, over the tick.
pub open spec fn spec_look_step(delta: int, dt: int) -> int {
    spec_mul_div(spec_mul_div(delta, dt, SCALE as int), 1, 10)
}

/// One tick of look input: yaw turns by the scaled horizontal delta and
/// wraps modulo a full turn; pitch turns by the scaled vertical delta and
/// clamps to `PITCH_LIMIT`, never passing through vertical.
pub fn update_look(yaw: i64, pitch: i64, mouse_dx: i64, mouse_dy: i64, dt: i64)
    -> (r: (i64, i64))
    requires
        mag(yaw as int) < FULL_TURN,
        mag(pitch as int) <= PITCH_LIMIT,
        mag(mouse_dx as int) <= LOOK_DELTA_LIMIT,
        mag(mouse_dy as int) <= LOOK_DELTA_LIMIT,
        0 < dt <= SCALE,
    ensures
        ({
            let raw = yaw - spec_look_step(mouse_dx as int, dt as int);
            r.0 == if raw >= 0 { raw % (FULL_TURN as int) }
                else { -((-raw) % (FULL_TURN as int)) }
        }),
        mag(r.0 as int) < FULL_TURN,
        ({
            let p = pitch - spec_look_step(mouse_dy as int, dt as int);
            r.1 == if p < -PITCH_LIMIT { -PITCH_LIMIT as int }
                else if p > PITCH_LIMIT { PITCH_LIMIT as int } else { p }
        }),
        mag(r.1 as int) <= PITCH_LIMIT,
{
    proof {
        assert(mag(mouse_dx as int) * mag(dt as int) <= 1_000_000_000) by (nonlinear_arith)
            requires 0 <= mag(mouse_dx as int) <= 1_000_000, 0 <= mag(dt as int) <= 1000;
        assert(mag(mouse_dy as int) * mag(dt as int) <= 1_000_000_000) by (nonlinear_arith)
            requires 0 <= mag(mouse_dy as int) <= 1_000_000, 0 <= mag(dt as int) <= 1000;
    }
    let tx = mul_div(mouse_dx, dt, SCALE);
    let ty = mul_div(mouse_dy, dt, SCALE);
    proof {
        assert(mag(tx as int) * 1000 <= 1_000_000_000);
        assert(mag(ty as int) * 1000 <= 1_000_000_000);
        assert(mag(tx as int) * 1 <= 1_000_000) by (nonlinear_arith)
            requires mag(tx as int) * 1000 <= 1_000_000_000, mag(tx as int) >= 0;
        assert(mag(ty as int) * 1 <= 1_000_000) by (nonlinear_arith)
            requires mag(ty as int) * 1000 <= 1_000_000_000, mag(ty as int) >= 0;
    }
    let sx = mul_div(tx, 1, 10);
    let sy = mul_div(ty, 1, 10);
    proof {
        assert(mag(sx as int) * 10 <= mag(tx as int) * 1);
        assert(mag(sy as int) * 10 <= mag(ty as int) * 1);
    }
    let raw_yaw = yaw - sx;
    let wrapped = if raw_yaw >= 0 {
        proof {
            vstd::arithmetic::div_mod::lemma_mod_bound(raw_yaw as int, FULL_TURN as int);
        }
        raw_yaw % FULL_TURN
    } else {
        proof {
            vstd::arithmetic::div_mod::lemma_mod_bound(-raw_yaw as int, FULL_TURN as int);
        }
        -((-raw_yaw) % FULL_TURN)
    };
    let raw_pitch = pitch - sy;
    let clamped = if raw_pitch < -PITCH_LIMIT {
        -PITCH_LIMIT
    } else if raw_pitch > PITCH_LIMIT {
        PITCH_LIMIT
    } else {
        raw_pitch
    };
    (wrapped, clamped)
}

} // verus!
