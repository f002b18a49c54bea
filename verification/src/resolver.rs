//! Swept-shape move-and-slide collision resolution, split into decision
//! steps.
//!
//! The shape sweeps themselves ("sweep the player capsule from here along
//! this direction for this distance; what does it first hit?") and the
//! discrete overlap probes belong to an outside physics backend. This
//! module holds every decision between those calls: the caller begins a
//! move, performs the requested sweep, hands the outcome back, and so on
//! until the move ends; a final overlap probe backs the move out entirely
//! if the backend reports the end position as overlapping.
//!
//! Horizontal movement slides: a first contact projects the remaining
//! velocity onto the contact plane; a second contact ("crease") confines it
//! to the line where the two contact planes meet; a third contact stops the
//! move. Vertical movement is a single sweep that also decides the
//! grounded flag. Two rules keep the fixed-point arithmetic bounded and
//! exact: the remaining time budget never exceeds the tick (a contact
//! closer than the skin depth still backs the shape out, but cannot
//! inflate the budget), and a slide or crease velocity that rounds to zero
//! ends the move at the contact position instead of sweeping along an
//! undefined direction.

use vstd::prelude::*;
use crate::fixed::{SCALE, mag, spec_mul_div, sqrt_floor, is_sqrt_floor, mul_div, div_trunc,
    isqrt, isqrt_wide, advance_along, fx_abs};

verus! {

/// Largest position magnitude, per axis, the resolver accepts.
pub const POS_LIMIT: i64 = 1_000_000_000_000;

/// Largest velocity magnitude, per axis, the resolver accepts.
pub const SPEED_LIMIT: i64 = 1_000_000_000;

/// A fixed-point vector: a position, velocity or surface normal.
#[derive(Clone, Copy, PartialEq, Eq, Structural, Debug)]
pub struct Vec3Fx {
    pub x: i64,
    pub y: i64,
    pub z: i64,
}

impl Vec3Fx {
    pub fn new(x: i64, y: i64, z: i64) -> (v: Vec3Fx)
        ensures
            v.x == x && v.y == y && v.z == z,
    {
        Vec3Fx { x, y, z }
    }

    /// Every component is within the position range.
    pub open spec fn in_pos_range(self) -> bool {
        mag(self.x as int) <= POS_LIMIT && mag(self.y as int) <= POS_LIMIT
            && mag(self.z as int) <= POS_LIMIT
    }

    /// Every component is within the unit-normal range (the backend hands
    /// back unit normals, `SCALE` fixed-point steps long).
    pub open spec fn in_normal_range(self) -> bool {
        mag(self.x as int) <= SCALE && mag(self.y as int) <= SCALE && mag(self.z as int) <= SCALE
    }
}

/// What one shape sweep of the physics backend reported: no obstruction
/// within the swept distance, or the nearest contact with its distance
/// along the sweep direction (time of impact) and its surface normal.
#[derive(Clone, Copy, PartialEq, Eq, Structural, Debug)]
pub enum SweepOutcome {
    Miss,
    Contact { toi: i64, normal: Vec3Fx },
}

/// Whether `o` is an outcome the sweep of distance `d` can report: a miss,
/// or a contact within the swept distance carrying a unit normal.
pub open spec fn outcome_in_range(o: SweepOutcome, d: int) -> bool {
    match o {
        SweepOutcome::Miss => true,
        SweepOutcome::Contact { toi, normal } => 0 <= toi <= d && normal.in_normal_range(),
    }
}

/// The final position of a move, after the backend's discrete overlap
/// probe at `moved`: a reported overlap (the sweeps missing an obstruction
/// through numeric error in the backend) backs the whole move out to the
/// known-good starting position.
pub fn resolve_overlap_check(moved: Vec3Fx, reset_position: Vec3Fx, overlapping: bool)
    -> (r: Vec3Fx)
    ensures
        overlapping ==> r == reset_position,
        !overlapping ==> r == moved,
{
    if overlapping { reset_position } else { moved }
}

// --- Vertical movement -------------------------------------------------

/// The pending vertical sweep: the capsule is to be swept from `position`
/// straight up (positive `vertical_velocity`) or straight down (negative)
/// for `distance`.
#[derive(Debug)]
pub struct YSweep {
    pub position: Vec3Fx,
    pub vertical_velocity: i64,
    pub time_delta: i64,
    pub skin_depth: i64,
    pub distance: i64,
}

impl YSweep {
    pub open spec fn wf(self) -> bool {
        &&& self.position.in_pos_range()
        &&& self.vertical_velocity != 0
        &&& mag(self.vertical_velocity as int) <= SPEED_LIMIT
        &&& 0 < self.time_delta <= SCALE
        &&& 0 < self.skin_depth <= SCALE
        &&& self.distance == spec_mul_div(mag(self.vertical_velocity as int),
            self.time_delta as int, SCALE as int) + self.skin_depth
    }
}

/// Whether a vertical move is needed, and if so which sweep to perform.
#[derive(Debug)]
pub enum YBegin {
    /// No vertical velocity: the position and the grounded flag keep.
    Stay,
    /// Sweep along the vertical velocity's direction for the sweep's
    /// distance.
    Sweep(YSweep),
}

/// Begins the vertical move for one tick.
pub fn begin_move_y(position: Vec3Fx, vertical_velocity: i64, time_delta: i64, skin_depth: i64)
    -> (r: YBegin)
    requires
        position.in_pos_range(),
        mag(vertical_velocity as int) <= SPEED_LIMIT,
        0 < time_delta <= SCALE,
        0 < skin_depth <= SCALE,
    ensures
        (r matches YBegin::Stay) <==> vertical_velocity == 0,
        r matches YBegin::Sweep(s) ==> s.wf() && s.position == position
            && s.vertical_velocity == vertical_velocity && s.time_delta == time_delta
            && s.skin_depth == skin_depth,
{
    if vertical_velocity == 0 {
        YBegin::Stay
    } else {
        proof {
            assert(mag(vertical_velocity as int) * (time_delta as int)
                <= 1_000_000_000_000) by (nonlinear_arith)
                requires
                    0 <= mag(vertical_velocity as int) <= 1_000_000_000,
                    0 < time_delta <= 1000i64;
        }
        let speed = fx_abs(vertical_velocity);
        let distance = mul_div(speed, time_delta, SCALE) + skin_depth;
        YBegin::Sweep(YSweep { position, vertical_velocity, time_delta, skin_depth, distance })
    }
}

/// Resolves the vertical sweep: on a contact the capsule advances to the
/// contact distance minus the skin depth — grounding the player exactly
/// when it was moving downward — and on a miss it travels the full tick,
/// leaving the player airborne.
pub fn resolve_y_sweep(ctx: &YSweep, outcome: &SweepOutcome) -> (r: (Vec3Fx, bool))
    requires
        ctx.wf(),
        outcome_in_range(*outcome, ctx.distance as int),
    ensures
        r.0.x == ctx.position.x && r.0.z == ctx.position.z,
        *outcome matches SweepOutcome::Contact { toi, .. } ==> r.0.y == ctx.position.y
            + (if ctx.vertical_velocity > 0 { toi - ctx.skin_depth }
                else { ctx.skin_depth - toi }),
        (*outcome matches SweepOutcome::Miss) ==> r.0.y == ctx.position.y
            + (if ctx.vertical_velocity > 0 { ctx.distance - ctx.skin_depth }
                else { ctx.skin_depth - ctx.distance }),
        r.1 <==> ((*outcome matches SweepOutcome::Contact { .. })
            && ctx.vertical_velocity < 0),
{
    proof {
        let m = mag(ctx.vertical_velocity as int);
        let d = ctx.time_delta as int;
        assert(spec_mul_div(m, d, SCALE as int) == m * d / 1000);
        assert(0 <= m * d <= 1_000_000_000_000) by (nonlinear_arith)
            requires 0 <= m <= 1_000_000_000, 0 < d <= 1000;
        vstd::arithmetic::div_mod::lemma_div_pos_is_pos(m * d, 1000);
        vstd::arithmetic::div_mod::lemma_div_is_ordered(m * d, 1_000_000_000_000, 1000);
        assert(0 <= spec_mul_div(m, d, SCALE as int) <= 1_000_000_000);
        assert(ctx.distance <= 1_000_001_000);
    }
    let mut p = ctx.position;
    match outcome {
        SweepOutcome::Contact { toi, .. } => {
            let close = *toi - ctx.skin_depth;
            if ctx.vertical_velocity > 0 {
                p.y = p.y + close;
            } else {
                p.y = p.y - close;
            }
            (p, ctx.vertical_velocity < 0)
        },
        SweepOutcome::Miss => {
            let travel = ctx.distance - ctx.skin_depth;
            if ctx.vertical_velocity > 0 {
                p.y = p.y + travel;
            } else {
                p.y = p.y - travel;
            }
            (p, false)
        },
    }
}


// --- Horizontal movement -----------------------------------------------

/// The pending first horizontal sweep: the capsule is to be swept from
/// `position` along the target velocity's direction for `distance`.
#[derive(Debug)]
pub struct XzSweep1 {
    pub position: Vec3Fx,
    pub velocity_x: i64,
    pub velocity_z: i64,
    /// The target velocity's magnitude, rounded down.
    pub speed: i64,
    pub time_delta: i64,
    pub skin_depth: i64,
    pub distance: i64,
}

impl XzSweep1 {
    pub open spec fn wf(self) -> bool {
        &&& self.position.in_pos_range()
        &&& mag(self.velocity_x as int) <= SPEED_LIMIT
        &&& mag(self.velocity_z as int) <= SPEED_LIMIT
        &&& !(self.velocity_x == 0 && self.velocity_z == 0)
        &&& 1 <= self.speed <= 2_000_000_000
        &&& (self.speed as int) * (self.speed as int)
            <= (self.velocity_x as int) * (self.velocity_x as int)
                + (self.velocity_z as int) * (self.velocity_z as int)
        &&& (self.velocity_x as int) * (self.velocity_x as int)
            + (self.velocity_z as int) * (self.velocity_z as int)
            < (self.speed as int + 1) * (self.speed as int + 1)
        &&& 0 < self.time_delta <= SCALE
        &&& 0 < self.skin_depth <= SCALE
        &&& self.distance == spec_mul_div(self.speed as int, self.time_delta as int,
            SCALE as int) + self.skin_depth
    }
}

/// Whether a horizontal move is needed, and if so which sweep to perform.
#[derive(Debug)]
pub enum XzBegin {
    /// Zero target velocity: no horizontal movement this tick.
    Stay,
    /// Sweep along the target velocity's direction for the sweep's
    /// distance.
    Sweep(XzSweep1),
}

/// Begins the horizontal move for one tick toward the target velocity.
pub fn begin_move_xz(position: Vec3Fx, velocity_x: i64, velocity_z: i64, time_delta: i64,
    skin_depth: i64) -> (r: XzBegin)
    requires
        position.in_pos_range(),
        mag(velocity_x as int) <= SPEED_LIMIT,
        mag(velocity_z as int) <= SPEED_LIMIT,
        0 < time_delta <= SCALE,
        0 < skin_depth <= SCALE,
    ensures
        (r matches XzBegin::Stay) <==> (velocity_x == 0 && velocity_z == 0),
        r matches XzBegin::Sweep(c) ==> c.wf() && c.position == position
            && c.velocity_x == velocity_x && c.velocity_z == velocity_z
            && c.time_delta == time_delta && c.skin_depth == skin_depth
            && c.speed == sqrt_floor((velocity_x as int) * (velocity_x as int)
                + (velocity_z as int) * (velocity_z as int)),
{
    if velocity_x == 0 && velocity_z == 0 {
        XzBegin::Stay
    } else {
        proof {
            assert(0 <= (velocity_x as int) * (velocity_x as int) <= 1_000_000_000_000_000_000)
                by (nonlinear_arith)
                requires mag(velocity_x as int) <= 1_000_000_000;
            assert(0 <= (velocity_z as int) * (velocity_z as int) <= 1_000_000_000_000_000_000)
                by (nonlinear_arith)
                requires mag(velocity_z as int) <= 1_000_000_000;
            assert((velocity_x as int) * (velocity_x as int)
                + (velocity_z as int) * (velocity_z as int) >= 1) by (nonlinear_arith)
                requires !(velocity_x == 0i64 && velocity_z == 0i64);
        }
        let sq = velocity_x * velocity_x + velocity_z * velocity_z;
        let speed = isqrt(sq);
        proof {
            assert(speed >= 1) by (nonlinear_arith)
                requires
                    sq >= 1i64,
                    (sq as int) < (speed as int + 1) * (speed as int + 1),
                    speed >= 0i64;
            assert(mag(speed as int) * (time_delta as int) <= 2_000_000_000_000)
                by (nonlinear_arith)
                requires 0 <= speed <= 2_000_000_000i64, 0 < time_delta <= 1000i64,
                    mag(speed as int) == speed;
        }
        let distance = mul_div(speed, time_delta, SCALE) + skin_depth;
        XzBegin::Sweep(XzSweep1 {
            position, velocity_x, velocity_z, speed, time_delta, skin_depth, distance,
        })
    }
}

/// The remaining time budget after advancing `close` toward the contact at
/// speed `speed`: the budget spent is the time that advance took, and the
/// remainder is clamped to the tick (a negative advance backs the shape out
/// but cannot inflate the budget).
pub open spec fn spec_time_remaining(dt: int, close: int, speed: int) -> int {
    let stop = spec_mul_div(close, SCALE as int, speed);
    if stop < 0 { dt } else { dt - stop }
}

/// The slide velocity after the first contact: the remaining velocity
/// (scaled by the remaining time budget) minus its component along the
/// contact normal, leaving motion tangent to the contact plane.
pub open spec fn spec_slide_velocity(c: XzSweep1, toi: int, n: Vec3Fx) -> (int, int, int) {
    let trem = spec_time_remaining(c.time_delta as int, toi - c.skin_depth, c.speed as int);
    let rx = spec_mul_div(c.velocity_x as int, trem, c.time_delta as int);
    let rz = spec_mul_div(c.velocity_z as int, trem, c.time_delta as int);
    let dot = spec_mul_div(rx * n.x + rz * n.z, 1, SCALE as int);
    (rx - spec_mul_div(dot, n.x as int, SCALE as int),
        0 - spec_mul_div(dot, n.y as int, SCALE as int),
        rz - spec_mul_div(dot, n.z as int, SCALE as int))
}

/// The pending second (slide) sweep: the capsule is to be swept from the
/// advanced `position` along the slide velocity's direction for `distance`.
#[derive(Debug)]
pub struct XzSweep2 {
    pub position: Vec3Fx,
    pub first_normal: Vec3Fx,
    pub slide_x: i64,
    pub slide_y: i64,
    pub slide_z: i64,
    /// The slide velocity's magnitude, rounded down.
    pub slide_speed: i64,
    pub time_remaining: i64,
    pub skin_depth: i64,
    pub distance: i64,
}

impl XzSweep2 {
    pub open spec fn wf(self) -> bool {
        &&& mag(self.position.x as int) <= POS_LIMIT + 4_000_000_000
        &&& mag(self.position.y as int) <= POS_LIMIT + 4_000_000_000
        &&& mag(self.position.z as int) <= POS_LIMIT + 4_000_000_000
        &&& self.first_normal.in_normal_range()
        &&& mag(self.slide_x as int) <= 5_000_000_000
        &&& mag(self.slide_y as int) <= 5_000_000_000
        &&& mag(self.slide_z as int) <= 5_000_000_000
        &&& 1 <= self.slide_speed <= 10_000_000_000
        &&& (self.slide_speed as int) * (self.slide_speed as int)
            <= (self.slide_x as int) * (self.slide_x as int)
                + (self.slide_y as int) * (self.slide_y as int)
                + (self.slide_z as int) * (self.slide_z as int)
        &&& (self.slide_x as int) * (self.slide_x as int)
            + (self.slide_y as int) * (self.slide_y as int)
            + (self.slide_z as int) * (self.slide_z as int)
            < (self.slide_speed as int + 1) * (self.slide_speed as int + 1)
        &&& 0 <= self.time_remaining <= SCALE
        &&& 0 < self.skin_depth <= SCALE
        &&& self.distance == spec_mul_div(self.slide_speed as int, self.time_remaining as int,
            SCALE as int) + self.skin_depth
    }
}

/// How the first horizontal sweep resolved.
#[derive(Debug)]
pub enum XzFirstResult {
    /// No obstruction: the capsule travelled the full tick; the overlap
    /// backstop probe follows.
    Free { position: Vec3Fx },
    /// Contact: the capsule advanced to the contact minus the skin depth,
    /// and the slide sweep follows.
    Slide(XzSweep2),
    /// Contact whose remaining slide velocity rounds to zero: the move
    /// ends at the advanced position; the overlap backstop probe follows.
    Stopped { position: Vec3Fx },
}

/// Resolves the first horizontal sweep: a miss travels the full tick, and
/// a contact advances the capsule to the contact minus the skin depth and
/// turns the remaining velocity into a slide along the contact plane.
///
/// A contact at zero distance means the capsule was already embedded at
/// the sweep's start — a fatal violation of the resolver's valid-start
/// precondition — so it is excluded here; the caller must test for it and
/// abort the move.
pub fn resolve_first_sweep(ctx: &XzSweep1, outcome: &SweepOutcome) -> (r: XzFirstResult)
    requires
        ctx.wf(),
        outcome_in_range(*outcome, ctx.distance as int),
        *outcome matches SweepOutcome::Contact { toi, .. } ==> toi > 0,
    ensures
        (*outcome matches SweepOutcome::Miss) ==> (r matches XzFirstResult::Free { position }
            && position.x == ctx.position.x + spec_mul_div(ctx.velocity_x as int,
                ctx.time_delta as int, SCALE as int)
            && position.y == ctx.position.y
            && position.z == ctx.position.z + spec_mul_div(ctx.velocity_z as int,
                ctx.time_delta as int, SCALE as int)),
        *outcome matches SweepOutcome::Contact { toi, normal } ==> (toi > 0 ==> ({
            let close = toi - ctx.skin_depth;
            let ax = ctx.position.x + spec_mul_div(ctx.velocity_x as int, close as int,
                ctx.speed as int);
            let az = ctx.position.z + spec_mul_div(ctx.velocity_z as int, close as int,
                ctx.speed as int);
            let (sx, sy, sz) = spec_slide_velocity(*ctx, toi as int, normal);
            let ssq = sx * sx + sy * sy + sz * sz;
            if sqrt_floor(ssq) == 0 {
                r matches XzFirstResult::Stopped { position } && position.x == ax
                    && position.y == ctx.position.y && position.z == az
            } else {
                r matches XzFirstResult::Slide(c2) && c2.wf() && c2.position.x == ax
                    && c2.position.y == ctx.position.y && c2.position.z == az
                    && c2.first_normal == normal
                    && c2.slide_x == sx && c2.slide_y == sy && c2.slide_z == sz
                    && c2.slide_speed == sqrt_floor(ssq)
                    && c2.time_remaining == spec_time_remaining(ctx.time_delta as int,
                        close as int, ctx.speed as int)
                    && c2.skin_depth == ctx.skin_depth
            }
        })),
{
    proof {
        lemma_xz_sweep1_bounds(*ctx);
    }
    match outcome {
        SweepOutcome::Miss => {
            let mut p = ctx.position;
            p.x = p.x + mul_div(ctx.velocity_x, ctx.time_delta, SCALE);
            p.z = p.z + mul_div(ctx.velocity_z, ctx.time_delta, SCALE);
            XzFirstResult::Free { position: p }
        },
        SweepOutcome::Contact { toi, normal } => {
            {
                let close = *toi - ctx.skin_depth;
                proof {
                    assert(mag(close as int) <= 2_000_002_000);
                    assert(mag(SCALE as int) == 1000);
                    assert(mag(close as int) * mag(SCALE as int) <= 4_000_000_000_000)
                        by (nonlinear_arith)
                        requires mag(close as int) <= 2_000_002_000,
                            mag(SCALE as int) == 1000;
                }
                let mut p = ctx.position;
                p.x = p.x + advance_along(ctx.velocity_x, close, ctx.speed);
                p.z = p.z + advance_along(ctx.velocity_z, close, ctx.speed);
                // Time spent reaching the contact, and the clamped remainder.
                let stop = mul_div(close, SCALE, ctx.speed);
                let trem = if stop < 0 {
                    ctx.time_delta
                } else {
                    proof {
                        lemma_stop_within_tick(*ctx, close as int, stop as int);
                    }
                    ctx.time_delta - stop
                };
                proof {
                    assert(0 <= trem <= 1000);
                    assert(mag(ctx.velocity_x as int) * mag(trem as int)
                        <= 1_000_000_000_000) by (nonlinear_arith)
                        requires mag(ctx.velocity_x as int) <= 1_000_000_000,
                            0 <= mag(trem as int) <= 1000;
                    assert(mag(ctx.velocity_z as int) * mag(trem as int)
                        <= 1_000_000_000_000) by (nonlinear_arith)
                        requires mag(ctx.velocity_z as int) <= 1_000_000_000,
                            0 <= mag(trem as int) <= 1000;
                }
                let rx = mul_div(ctx.velocity_x, trem, ctx.time_delta);
                let rz = mul_div(ctx.velocity_z, trem, ctx.time_delta);
                proof {
                    assert(mag(rx as int) * (ctx.time_delta as int)
                        <= mag(ctx.velocity_x as int) * mag(trem as int));
                    assert(mag(rx as int) <= 1_000_000_000) by (nonlinear_arith)
                        requires
                            mag(rx as int) * (ctx.time_delta as int)
                                <= mag(ctx.velocity_x as int) * mag(trem as int),
                            mag(ctx.velocity_x as int) <= 1_000_000_000,
                            mag(trem as int) <= ctx.time_delta,
                            ctx.time_delta >= 1,
                            mag(rx as int) >= 0;
                    assert(mag(rz as int) * (ctx.time_delta as int)
                        <= mag(ctx.velocity_z as int) * mag(trem as int));
                    assert(mag(rz as int) <= 1_000_000_000) by (nonlinear_arith)
                        requires
                            mag(rz as int) * (ctx.time_delta as int)
                                <= mag(ctx.velocity_z as int) * mag(trem as int),
                            mag(ctx.velocity_z as int) <= 1_000_000_000,
                            mag(trem as int) <= ctx.time_delta,
                            ctx.time_delta >= 1,
                            mag(rz as int) >= 0;
                    assert(-1_000_000_000_000 <= (rx as int) * (normal.x as int)
                        <= 1_000_000_000_000) by (nonlinear_arith)
                        requires mag(rx as int) <= 1_000_000_000, mag(normal.x as int) <= 1000;
                    assert(-1_000_000_000_000 <= (rz as int) * (normal.z as int)
                        <= 1_000_000_000_000) by (nonlinear_arith)
                        requires mag(rz as int) <= 1_000_000_000, mag(normal.z as int) <= 1000;
                }
                let dot = div_trunc(rx * normal.x + rz * normal.z, SCALE);
                proof {
                    let aa = (rx as int) * (normal.x as int) + (rz as int) * (normal.z as int);
                    vstd::arithmetic::div_mod::lemma_div_pos_is_pos(mag(aa), 1000);
                    vstd::arithmetic::div_mod::lemma_div_is_ordered(mag(aa),
                        2_000_000_000_000, 1000);
                    assert(mag(aa) * 1 == mag(aa));
                    assert(mag(dot as int) <= 2_000_000_000);
                    assert(mag(dot as int) * mag(normal.x as int) <= 2_000_000_000_000)
                        by (nonlinear_arith)
                        requires mag(dot as int) <= 2_000_000_000,
                            mag(normal.x as int) <= 1000;
                    assert(mag(dot as int) * mag(normal.y as int) <= 2_000_000_000_000)
                        by (nonlinear_arith)
                        requires mag(dot as int) <= 2_000_000_000,
                            mag(normal.y as int) <= 1000;
                    assert(mag(dot as int) * mag(normal.z as int) <= 2_000_000_000_000)
                        by (nonlinear_arith)
                        requires mag(dot as int) <= 2_000_000_000,
                            mag(normal.z as int) <= 1000;
                }
                let px = mul_div(dot, normal.x, SCALE);
                let py = mul_div(dot, normal.y, SCALE);
                let pz = mul_div(dot, normal.z, SCALE);
                proof {
                    assert(mag(px as int) * 1000 <= 2_000_000_000_000);
                    assert(mag(py as int) * 1000 <= 2_000_000_000_000);
                    assert(mag(pz as int) * 1000 <= 2_000_000_000_000);
                    assert(mag(px as int) <= 2_000_000_000);
                    assert(mag(py as int) <= 2_000_000_000);
                    assert(mag(pz as int) <= 2_000_000_000);
                }
                let sx = rx - px;
                let sy = 0i64 - py;
                let sz = rz - pz;
                proof {
                    assert(0 <= (sx as int) * (sx as int) <= 9_006_001_000_000_000_000)
                        by (nonlinear_arith)
                        requires mag(sx as int) <= 3_001_000_000;
                    assert(0 <= (sy as int) * (sy as int) <= 9_006_001_000_000_000_000)
                        by (nonlinear_arith)
                        requires mag(sy as int) <= 3_001_000_000;
                    assert(0 <= (sz as int) * (sz as int) <= 9_006_001_000_000_000_000)
                        by (nonlinear_arith)
                        requires mag(sz as int) <= 3_001_000_000;
                }
                let ssq: i128 = (sx as i128) * (sx as i128) + (sy as i128) * (sy as i128)
                    + (sz as i128) * (sz as i128);
                let ss = isqrt_wide(ssq);
                if ss == 0 {
                    XzFirstResult::Stopped { position: p }
                } else {
                    proof {
                        assert(mag(sx as int) <= ss && mag(sy as int) <= ss
                            && mag(sz as int) <= ss) by (nonlinear_arith)
                            requires
                                (sx as int) * (sx as int) + (sy as int) * (sy as int)
                                    + (sz as int) * (sz as int)
                                    < (ss as int + 1) * (ss as int + 1),
                                ss >= 0i64;
                        assert(ss <= 6_000_000_000) by (nonlinear_arith)
                            requires
                                (ss as int) * (ss as int) <= 27_018_003_000_000_000_000i128
                                    as int,
                                ss >= 0i64;
                        assert(mag(ss as int) * mag(trem as int) <= 6_000_000_000_000)
                            by (nonlinear_arith)
                            requires 0 <= ss <= 6_000_000_000i64, 0 <= trem <= 1000i64,
                                mag(ss as int) == ss, mag(trem as int) == trem;
                    }
                    let distance = mul_div(ss, trem, SCALE) + ctx.skin_depth;
                    XzFirstResult::Slide(XzSweep2 {
                        position: p,
                        first_normal: *normal,
                        slide_x: sx,
                        slide_y: sy,
                        slide_z: sz,
                        slide_speed: ss,
                        time_remaining: trem,
                        skin_depth: ctx.skin_depth,
                        distance,
                    })
                }
            }
        },
    }
}

/// Bounds that every well-formed first sweep obeys: the sweep distance is
/// about one tick of travel, and each velocity component is at most the
/// speed.
proof fn lemma_xz_sweep1_bounds(c: XzSweep1)
    requires
        c.wf(),
    ensures
        0 <= spec_mul_div(c.speed as int, c.time_delta as int, SCALE as int) <= 2_000_000_000,
        0 < c.distance <= 2_000_001_000,
        mag(c.velocity_x as int) <= c.speed,
        mag(c.velocity_z as int) <= c.speed,
        mag(spec_mul_div(c.velocity_x as int, c.time_delta as int, SCALE as int))
            <= 1_000_000_000,
        mag(spec_mul_div(c.velocity_z as int, c.time_delta as int, SCALE as int))
            <= 1_000_000_000,
{
    let s = c.speed as int;
    let d = c.time_delta as int;
    assert(0 <= s * d <= 2_000_000_000_000) by (nonlinear_arith)
        requires 1 <= s <= 2_000_000_000, 0 < d <= 1000;
    assert(spec_mul_div(s, d, SCALE as int) == s * d / 1000);
    vstd::arithmetic::div_mod::lemma_div_pos_is_pos(s * d, 1000);
    vstd::arithmetic::div_mod::lemma_div_is_ordered(s * d, 2_000_000_000_000, 1000);
    assert(mag(c.velocity_x as int) <= s && mag(c.velocity_z as int) <= s)
        by (nonlinear_arith)
        requires
            (c.velocity_x as int) * (c.velocity_x as int)
                + (c.velocity_z as int) * (c.velocity_z as int) < (s + 1) * (s + 1),
            s >= 0;
    let vxm = mag(c.velocity_x as int);
    assert(0 <= vxm * d <= 1_000_000_000_000) by (nonlinear_arith)
        requires 0 <= vxm <= 1_000_000_000, 0 < d <= 1000;
    assert(spec_mul_div(c.velocity_x as int, d, SCALE as int) == vxm * d / 1000
        || spec_mul_div(c.velocity_x as int, d, SCALE as int) == -(vxm * d / 1000));
    vstd::arithmetic::div_mod::lemma_div_pos_is_pos(vxm * d, 1000);
    vstd::arithmetic::div_mod::lemma_div_is_ordered(vxm * d, 1_000_000_000_000, 1000);
    let vzm = mag(c.velocity_z as int);
    assert(0 <= vzm * d <= 1_000_000_000_000) by (nonlinear_arith)
        requires 0 <= vzm <= 1_000_000_000, 0 < d <= 1000;
    assert(spec_mul_div(c.velocity_z as int, d, SCALE as int) == vzm * d / 1000
        || spec_mul_div(c.velocity_z as int, d, SCALE as int) == -(vzm * d / 1000));
    vstd::arithmetic::div_mod::lemma_div_pos_is_pos(vzm * d, 1000);
    vstd::arithmetic::div_mod::lemma_div_is_ordered(vzm * d, 1_000_000_000_000, 1000);
}

/// Advancing to a contact within the sweep distance never spends more than
/// the tick: the contact lies within the distance the velocity covers in
/// one tick plus the skin.
proof fn lemma_stop_within_tick(c: XzSweep1, close: int, stop: int)
    requires
        c.wf(),
        close <= c.distance - c.skin_depth,
        stop == spec_mul_div(close, SCALE as int, c.speed as int),
        stop >= 0,
    ensures
        stop <= c.time_delta,
{
    let s = c.speed as int;
    let d = c.time_delta as int;
    let travel = spec_mul_div(s, d, SCALE as int);
    assert(travel == s * d / 1000);
    vstd::arithmetic::div_mod::lemma_fundamental_div_mod(s * d, 1000);
    vstd::arithmetic::div_mod::lemma_mod_bound(s * d, 1000);
    assert(travel * 1000 <= s * d) by (nonlinear_arith)
        requires
            travel == s * d / 1000,
            s * d == 1000 * (s * d / 1000) + (s * d) % 1000,
            (s * d) % 1000 >= 0;
    if close >= 0 {
        assert(stop == close * 1000 / s);
        vstd::arithmetic::div_mod::lemma_fundamental_div_mod(close * 1000, s);
        vstd::arithmetic::div_mod::lemma_mod_bound(close * 1000, s);
        assert(stop * s <= close * 1000) by (nonlinear_arith)
            requires
                stop == close * 1000 / s,
                close * 1000 == s * (close * 1000 / s) + (close * 1000) % s,
                (close * 1000) % s >= 0;
        assert(close * 1000 <= travel * 1000) by (nonlinear_arith)
            requires close <= travel;
        assert(stop <= d) by (nonlinear_arith)
            requires
                stop * s <= close * 1000,
                close * 1000 <= s * d,
                s >= 1;
    } else {
        assert(spec_mul_div(close, SCALE as int, s) <= 0);
    }
}

/// The crease direction: the line where the two contact planes meet, as
/// the cross product of their normals (in `SCALE` fixed-point steps).
pub open spec fn spec_crease_direction(n1: Vec3Fx, n2: Vec3Fx) -> (int, int, int) {
    (spec_mul_div(n1.y * n2.z - n1.z * n2.y, 1, SCALE as int),
        spec_mul_div(n1.z * n2.x - n1.x * n2.z, 1, SCALE as int),
        spec_mul_div(n1.x * n2.y - n1.y * n2.x, 1, SCALE as int))
}

/// The crease velocity after the second contact: the remaining slide
/// velocity projected onto the crease line.
pub open spec fn spec_crease_velocity(c: XzSweep2, toi: int, n2: Vec3Fx) -> (int, int, int) {
    let (cx, cy, cz) = spec_crease_direction(c.first_normal, n2);
    let trem2 = spec_time_remaining(c.time_remaining as int, toi - c.skin_depth,
        c.slide_speed as int);
    let vx = spec_mul_div(c.slide_x as int, trem2, c.time_remaining as int);
    let vy = spec_mul_div(c.slide_y as int, trem2, c.time_remaining as int);
    let vz = spec_mul_div(c.slide_z as int, trem2, c.time_remaining as int);
    let dot = spec_mul_div(vx * cx + vy * cy + vz * cz, 1, SCALE as int);
    (spec_mul_div(dot, cx, SCALE as int), spec_mul_div(dot, cy, SCALE as int),
        spec_mul_div(dot, cz, SCALE as int))
}

/// The pending third (crease) sweep: the capsule is to be swept from the
/// advanced `position` along the crease velocity's direction for
/// `distance`.
#[derive(Debug)]
pub struct XzSweep3 {
    pub position: Vec3Fx,
    pub crease_x: i64,
    pub crease_y: i64,
    pub crease_z: i64,
    /// The crease velocity's magnitude, rounded down.
    pub crease_speed: i64,
    pub time_remaining: i64,
    pub skin_depth: i64,
    pub distance: i64,
}

impl XzSweep3 {
    pub open spec fn wf(self) -> bool {
        &&& mag(self.position.x as int) <= POS_LIMIT + 20_000_000_000
        &&& mag(self.position.y as int) <= POS_LIMIT + 20_000_000_000
        &&& mag(self.position.z as int) <= POS_LIMIT + 20_000_000_000
        &&& mag(self.crease_x as int) <= 100_000_000_000
        &&& mag(self.crease_y as int) <= 100_000_000_000
        &&& mag(self.crease_z as int) <= 100_000_000_000
        &&& 1 <= self.crease_speed <= 200_000_000_000
        &&& (self.crease_speed as int) * (self.crease_speed as int)
            <= (self.crease_x as int) * (self.crease_x as int)
                + (self.crease_y as int) * (self.crease_y as int)
                + (self.crease_z as int) * (self.crease_z as int)
        &&& (self.crease_x as int) * (self.crease_x as int)
            + (self.crease_y as int) * (self.crease_y as int)
            + (self.crease_z as int) * (self.crease_z as int)
            < (self.crease_speed as int + 1) * (self.crease_speed as int + 1)
        &&& 0 <= self.time_remaining <= SCALE
        &&& 0 < self.skin_depth <= SCALE
        &&& self.distance == spec_mul_div(self.crease_speed as int, self.time_remaining as int,
            SCALE as int) + self.skin_depth
    }
}

/// How the slide sweep resolved.
#[derive(Debug)]
pub enum XzSlideResult {
    /// No obstruction along the slide: the slide displacement applies in
    /// full; the overlap backstop probe follows.
    Moved { position: Vec3Fx },
    /// A second contact: the capsule advanced to it, and one last sweep
    /// along the crease line follows.
    Crease(XzSweep3),
    /// A second contact whose crease velocity rounds to zero (or with no
    /// time budget left): the move ends at the advanced position; the
    /// overlap backstop probe follows.
    Stopped { position: Vec3Fx },
}

/// Resolves the slide sweep: a miss applies the slide displacement for the
/// remaining budget; a second contact advances to it and projects what is
/// left of the slide velocity onto the crease of the two contact planes.
pub fn resolve_slide_sweep(ctx: &XzSweep2, outcome: &SweepOutcome) -> (r: XzSlideResult)
    requires
        ctx.wf(),
        outcome_in_range(*outcome, ctx.distance as int),
    ensures
        (*outcome matches SweepOutcome::Miss) ==> (r matches XzSlideResult::Moved { position }
            && position.x == ctx.position.x + spec_mul_div(ctx.slide_x as int,
                ctx.time_remaining as int, SCALE as int)
            && position.y == ctx.position.y + spec_mul_div(ctx.slide_y as int,
                ctx.time_remaining as int, SCALE as int)
            && position.z == ctx.position.z + spec_mul_div(ctx.slide_z as int,
                ctx.time_remaining as int, SCALE as int)),
        *outcome matches SweepOutcome::Contact { toi, normal } ==> ({
            let close = toi - ctx.skin_depth;
            let ax = ctx.position.x + spec_mul_div(ctx.slide_x as int, close as int,
                ctx.slide_speed as int);
            let ay = ctx.position.y + spec_mul_div(ctx.slide_y as int, close as int,
                ctx.slide_speed as int);
            let az = ctx.position.z + spec_mul_div(ctx.slide_z as int, close as int,
                ctx.slide_speed as int);
            let (wx, wy, wz) = spec_crease_velocity(*ctx, toi as int, normal);
            let wsq = wx * wx + wy * wy + wz * wz;
            if ctx.time_remaining == 0 || sqrt_floor(wsq) == 0 {
                r matches XzSlideResult::Stopped { position } && position.x == ax
                    && position.y == ay && position.z == az
            } else {
                r matches XzSlideResult::Crease(c3) && c3.wf() && c3.position.x == ax
                    && c3.position.y == ay && c3.position.z == az
                    && c3.crease_x == wx && c3.crease_y == wy && c3.crease_z == wz
                    && c3.crease_speed == sqrt_floor(wsq)
                    && c3.time_remaining == spec_time_remaining(ctx.time_remaining as int,
                        close as int, ctx.slide_speed as int)
                    && c3.skin_depth == ctx.skin_depth
            }
        }),
{
    proof {
        lemma_xz_sweep2_bounds(*ctx);
    }
    match outcome {
        SweepOutcome::Miss => {
            let mut p = ctx.position;
            p.x = p.x + mul_div(ctx.slide_x, ctx.time_remaining, SCALE);
            p.y = p.y + mul_div(ctx.slide_y, ctx.time_remaining, SCALE);
            p.z = p.z + mul_div(ctx.slide_z, ctx.time_remaining, SCALE);
            XzSlideResult::Moved { position: p }
        },
        SweepOutcome::Contact { toi, normal } => {
            let close = *toi - ctx.skin_depth;
            proof {
                assert(mag(close as int) <= 10_000_002_000);
            }
            let mut p = ctx.position;
            p.x = p.x + advance_along(ctx.slide_x, close, ctx.slide_speed);
            p.y = p.y + advance_along(ctx.slide_y, close, ctx.slide_speed);
            p.z = p.z + advance_along(ctx.slide_z, close, ctx.slide_speed);
            if ctx.time_remaining == 0 {
                XzSlideResult::Stopped { position: p }
            } else {
                proof {
                    assert(mag(close as int) * mag(SCALE as int) <= 10_002_002_000_000)
                        by (nonlinear_arith)
                        requires mag(close as int) <= 10_000_002_000,
                            mag(SCALE as int) == 1000;
                }
                let stop = mul_div(close, SCALE, ctx.slide_speed);
                let trem2 = if stop < 0 {
                    ctx.time_remaining
                } else {
                    proof {
                        lemma_budget_stop_within(ctx.slide_speed as int,
                            ctx.time_remaining as int, ctx.skin_depth as int,
                            ctx.distance as int, close as int, stop as int);
                    }
                    ctx.time_remaining - stop
                };
                proof {
                    assert(0 <= trem2 <= 1000);
                    assert(mag(ctx.slide_x as int) * mag(trem2 as int) <= 5_000_000_000_000)
                        by (nonlinear_arith)
                        requires mag(ctx.slide_x as int) <= 5_000_000_000,
                            0 <= mag(trem2 as int) <= 1000;
                    assert(mag(ctx.slide_y as int) * mag(trem2 as int) <= 5_000_000_000_000)
                        by (nonlinear_arith)
                        requires mag(ctx.slide_y as int) <= 5_000_000_000,
                            0 <= mag(trem2 as int) <= 1000;
                    assert(mag(ctx.slide_z as int) * mag(trem2 as int) <= 5_000_000_000_000)
                        by (nonlinear_arith)
                        requires mag(ctx.slide_z as int) <= 5_000_000_000,
                            0 <= mag(trem2 as int) <= 1000;
                }
                let vx = mul_div(ctx.slide_x, trem2, ctx.time_remaining);
                let vy = mul_div(ctx.slide_y, trem2, ctx.time_remaining);
                let vz = mul_div(ctx.slide_z, trem2, ctx.time_remaining);
                proof {
                    lemma_component_bounded(ctx.slide_x as int, trem2 as int,
                        ctx.time_remaining as int, vx as int, 5_000_000_000);
                    lemma_component_bounded(ctx.slide_y as int, trem2 as int,
                        ctx.time_remaining as int, vy as int, 5_000_000_000);
                    lemma_component_bounded(ctx.slide_z as int, trem2 as int,
                        ctx.time_remaining as int, vz as int, 5_000_000_000);
                }
                let n1 = ctx.first_normal;
                proof {
                    lemma_cross_product_bounds(n1, *normal);
                }
                let cx = div_trunc(n1.y * normal.z - n1.z * normal.y, SCALE);
                let cy = div_trunc(n1.z * normal.x - n1.x * normal.z, SCALE);
                let cz = div_trunc(n1.x * normal.y - n1.y * normal.x, SCALE);
                proof {
                    lemma_scaled_down(n1.y as int * normal.z as int
                        - n1.z as int * normal.y as int, cx as int, 2_000_000);
                    lemma_scaled_down(n1.z as int * normal.x as int
                        - n1.x as int * normal.z as int, cy as int, 2_000_000);
                    lemma_scaled_down(n1.x as int * normal.y as int
                        - n1.y as int * normal.x as int, cz as int, 2_000_000);
                    assert(-10_000_000_000_000 <= (vx as int) * (cx as int)
                        <= 10_000_000_000_000) by (nonlinear_arith)
                        requires mag(vx as int) <= 5_000_000_000, mag(cx as int) <= 2_000;
                    assert(-10_000_000_000_000 <= (vy as int) * (cy as int)
                        <= 10_000_000_000_000) by (nonlinear_arith)
                        requires mag(vy as int) <= 5_000_000_000, mag(cy as int) <= 2_000;
                    assert(-10_000_000_000_000 <= (vz as int) * (cz as int)
                        <= 10_000_000_000_000) by (nonlinear_arith)
                        requires mag(vz as int) <= 5_000_000_000, mag(cz as int) <= 2_000;
                }
                let dot = div_trunc(vx * cx + vy * cy + vz * cz, SCALE);
                proof {
                    lemma_scaled_down((vx as int) * (cx as int) + (vy as int) * (cy as int)
                        + (vz as int) * (cz as int), dot as int, 30_000_000_000_000);
                    assert(mag(dot as int) * mag(cx as int) <= 60_000_000_000_000)
                        by (nonlinear_arith)
                        requires mag(dot as int) <= 30_000_000_000, mag(cx as int) <= 2_000;
                    assert(mag(dot as int) * mag(cy as int) <= 60_000_000_000_000)
                        by (nonlinear_arith)
                        requires mag(dot as int) <= 30_000_000_000, mag(cy as int) <= 2_000;
                    assert(mag(dot as int) * mag(cz as int) <= 60_000_000_000_000)
                        by (nonlinear_arith)
                        requires mag(dot as int) <= 30_000_000_000, mag(cz as int) <= 2_000;
                }
                let wx = mul_div(dot, cx, SCALE);
                let wy = mul_div(dot, cy, SCALE);
                let wz = mul_div(dot, cz, SCALE);
                proof {
                    assert(mag(wx as int) * 1000 <= 60_000_000_000_000);
                    assert(mag(wy as int) * 1000 <= 60_000_000_000_000);
                    assert(mag(wz as int) * 1000 <= 60_000_000_000_000);
                    assert(mag(wx as int) <= 60_000_000_000);
                    assert(mag(wy as int) <= 60_000_000_000);
                    assert(mag(wz as int) <= 60_000_000_000);
                    assert(0 <= (wx as int) * (wx as int) <= 3_600_000_000_000_000_000_000)
                        by (nonlinear_arith)
                        requires mag(wx as int) <= 60_000_000_000;
                    assert(0 <= (wy as int) * (wy as int) <= 3_600_000_000_000_000_000_000)
                        by (nonlinear_arith)
                        requires mag(wy as int) <= 60_000_000_000;
                    assert(0 <= (wz as int) * (wz as int) <= 3_600_000_000_000_000_000_000)
                        by (nonlinear_arith)
                        requires mag(wz as int) <= 60_000_000_000;
                }
                let wsq: i128 = (wx as i128) * (wx as i128) + (wy as i128) * (wy as i128)
                    + (wz as i128) * (wz as i128);
                let ws = isqrt_wide(wsq);
                if ws == 0 {
                    XzSlideResult::Stopped { position: p }
                } else {
                    proof {
                        assert(mag(wx as int) <= ws && mag(wy as int) <= ws
                            && mag(wz as int) <= ws) by (nonlinear_arith)
                            requires
                                (wx as int) * (wx as int) + (wy as int) * (wy as int)
                                    + (wz as int) * (wz as int)
                                    < (ws as int + 1) * (ws as int + 1),
                                ws >= 0i64;
                        assert(ws <= 110_000_000_000) by (nonlinear_arith)
                            requires
                                (ws as int) * (ws as int)
                                    <= 10_800_000_000_000_000_000_000i128 as int,
                                ws >= 0i64;
                        assert(mag(ws as int) * mag(trem2 as int) <= 110_000_000_000_000)
                            by (nonlinear_arith)
                            requires 0 <= ws <= 110_000_000_000i64, 0 <= trem2 <= 1000i64,
                                mag(ws as int) == ws, mag(trem2 as int) == trem2;
                    }
                    let distance = mul_div(ws, trem2, SCALE) + ctx.skin_depth;
                    XzSlideResult::Crease(XzSweep3 {
                        position: p,
                        crease_x: wx,
                        crease_y: wy,
                        crease_z: wz,
                        crease_speed: ws,
                        time_remaining: trem2,
                        skin_depth: ctx.skin_depth,
                        distance,
                    })
                }
            }
        },
    }
}

/// How the crease sweep resolved. Either way the move is over and the
/// overlap backstop probe follows.
#[derive(Debug)]
pub enum XzCreaseResult {
    /// The crease line was clear: the crease displacement applies in full.
    Moved { position: Vec3Fx },
    /// A third contact: no further movement this tick — the accepted limit
    /// of the two-slide-pass design.
    Blocked { position: Vec3Fx },
}

/// Resolves the crease sweep: the crease displacement applies only when
/// the line is clear; on a third contact the capsule stays at the second
/// contact's position.
pub fn resolve_crease_sweep(ctx: &XzSweep3, outcome: &SweepOutcome) -> (r: XzCreaseResult)
    requires
        ctx.wf(),
        outcome_in_range(*outcome, ctx.distance as int),
    ensures
        (*outcome matches SweepOutcome::Miss) ==> (r matches XzCreaseResult::Moved { position }
            && position.x == ctx.position.x + spec_mul_div(ctx.crease_x as int,
                ctx.time_remaining as int, SCALE as int)
            && position.y == ctx.position.y + spec_mul_div(ctx.crease_y as int,
                ctx.time_remaining as int, SCALE as int)
            && position.z == ctx.position.z + spec_mul_div(ctx.crease_z as int,
                ctx.time_remaining as int, SCALE as int)),
        (*outcome matches SweepOutcome::Contact { .. })
            ==> (r matches XzCreaseResult::Blocked { position } && position == ctx.position),
{
    match outcome {
        SweepOutcome::Miss => {
            proof {
                assert(mag(ctx.crease_x as int) * mag(ctx.time_remaining as int)
                    <= 100_000_000_000_000) by (nonlinear_arith)
                    requires mag(ctx.crease_x as int) <= 100_000_000_000,
                        0 <= mag(ctx.time_remaining as int) <= 1000;
                assert(mag(ctx.crease_y as int) * mag(ctx.time_remaining as int)
                    <= 100_000_000_000_000) by (nonlinear_arith)
                    requires mag(ctx.crease_y as int) <= 100_000_000_000,
                        0 <= mag(ctx.time_remaining as int) <= 1000;
                assert(mag(ctx.crease_z as int) * mag(ctx.time_remaining as int)
                    <= 100_000_000_000_000) by (nonlinear_arith)
                    requires mag(ctx.crease_z as int) <= 100_000_000_000,
                        0 <= mag(ctx.time_remaining as int) <= 1000;
            }
            let mut p = ctx.position;
            p.x = p.x + mul_div(ctx.crease_x, ctx.time_remaining, SCALE);
            p.y = p.y + mul_div(ctx.crease_y, ctx.time_remaining, SCALE);
            p.z = p.z + mul_div(ctx.crease_z, ctx.time_remaining, SCALE);
            proof {
                assert(mag((p.x) as int) <= POS_LIMIT + 120_000_000_000);
            }
            XzCreaseResult::Moved { position: p }
        },
        SweepOutcome::Contact { .. } => {
            XzCreaseResult::Blocked { position: ctx.position }
        },
    }
}

/// Bounds that every well-formed slide sweep obeys.
proof fn lemma_xz_sweep2_bounds(c: XzSweep2)
    requires
        c.wf(),
    ensures
        0 <= spec_mul_div(c.slide_speed as int, c.time_remaining as int, SCALE as int)
            <= 10_000_000_000,
        0 < c.distance <= 10_000_001_000,
        mag(c.slide_x as int) <= c.slide_speed,
        mag(c.slide_y as int) <= c.slide_speed,
        mag(c.slide_z as int) <= c.slide_speed,
        mag(spec_mul_div(c.slide_x as int, c.time_remaining as int, SCALE as int))
            <= 5_000_000_000,
        mag(spec_mul_div(c.slide_y as int, c.time_remaining as int, SCALE as int))
            <= 5_000_000_000,
        mag(spec_mul_div(c.slide_z as int, c.time_remaining as int, SCALE as int))
            <= 5_000_000_000,
{
    let s = c.slide_speed as int;
    let d = c.time_remaining as int;
    assert(0 <= s * d <= 10_000_000_000_000) by (nonlinear_arith)
        requires 1 <= s <= 10_000_000_000, 0 <= d <= 1000;
    assert(spec_mul_div(s, d, SCALE as int) == s * d / 1000);
    vstd::arithmetic::div_mod::lemma_div_pos_is_pos(s * d, 1000);
    vstd::arithmetic::div_mod::lemma_div_is_ordered(s * d, 10_000_000_000_000, 1000);
    assert(mag(c.slide_x as int) <= s && mag(c.slide_y as int) <= s
        && mag(c.slide_z as int) <= s) by (nonlinear_arith)
        requires
            (c.slide_x as int) * (c.slide_x as int) + (c.slide_y as int) * (c.slide_y as int)
                + (c.slide_z as int) * (c.slide_z as int) < (s + 1) * (s + 1),
            s >= 0;
    lemma_decay_bound(c.slide_x as int, d, 5_000_000_000);
    lemma_decay_bound(c.slide_y as int, d, 5_000_000_000);
    lemma_decay_bound(c.slide_z as int, d, 5_000_000_000);
}

/// Scaling `v` by at most one tick over `SCALE` keeps it within its own
/// bound.
proof fn lemma_decay_bound(v: int, d: int, b: int)
    requires
        mag(v) <= b,
        0 <= d <= 1000,
        b >= 0,
    ensures
        mag(spec_mul_div(v, d, SCALE as int)) <= b,
{
    let m = mag(v) * mag(d);
    assert(0 <= m <= b * 1000) by (nonlinear_arith)
        requires 0 <= mag(v) <= b, 0 <= mag(d) <= 1000, m == mag(v) * mag(d);
    vstd::arithmetic::div_mod::lemma_div_pos_is_pos(m, 1000);
    vstd::arithmetic::div_mod::lemma_div_is_ordered(m, b * 1000, 1000);
    assert(b * 1000 / 1000 == b) by (nonlinear_arith)
        requires b >= 0;
}

/// The quotient of a value bounded by `b` under truncating division by
/// `SCALE` is bounded by `b / 1000`.
proof fn lemma_scaled_down(a: int, r: int, b: int)
    requires
        mag(a) <= b,
        b >= 0,
        r == spec_mul_div(a, 1, SCALE as int),
    ensures
        mag(r) <= b / 1000,
{
    assert(mag(a) * 1 == mag(a));
    vstd::arithmetic::div_mod::lemma_div_pos_is_pos(mag(a), 1000);
    vstd::arithmetic::div_mod::lemma_div_is_ordered(mag(a), b, 1000);
}

/// Scaling a component by a fraction of the budget keeps it within its
/// bound.
proof fn lemma_component_bounded(v: int, t: int, d: int, r: int, b: int)
    requires
        mag(v) <= b,
        0 <= t <= d,
        d >= 1,
        b >= 0,
        r == spec_mul_div(v, t, d),
    ensures
        mag(r) <= b,
{
    let m = mag(v) * mag(t);
    assert(m <= b * d) by (nonlinear_arith)
        requires 0 <= mag(v) <= b, 0 <= mag(t) <= d, m == mag(v) * mag(t), d >= 1, b >= 0;
    vstd::arithmetic::div_mod::lemma_div_pos_is_pos(m, d);
    vstd::arithmetic::div_mod::lemma_div_is_ordered(m, b * d, d);
    assert(b * d / d == b) by (nonlinear_arith)
        requires b >= 0, d >= 1;
}

/// Advancing to a contact within a sweep's distance never spends more than
/// its remaining budget.
proof fn lemma_budget_stop_within(speed: int, budget: int, skin: int, distance: int,
    close: int, stop: int)
    requires
        1 <= speed,
        0 <= budget,
        0 < skin,
        distance == spec_mul_div(speed, budget, SCALE as int) + skin,
        close <= distance - skin,
        stop == spec_mul_div(close, SCALE as int, speed),
        stop >= 0,
    ensures
        stop <= budget,
{
    let travel = spec_mul_div(speed, budget, SCALE as int);
    assert(travel == speed * budget / 1000);
    vstd::arithmetic::div_mod::lemma_fundamental_div_mod(speed * budget, 1000);
    vstd::arithmetic::div_mod::lemma_mod_bound(speed * budget, 1000);
    assert(travel * 1000 <= speed * budget) by (nonlinear_arith)
        requires
            travel == speed * budget / 1000,
            speed * budget == 1000 * (speed * budget / 1000) + (speed * budget) % 1000,
            (speed * budget) % 1000 >= 0;
    if close >= 0 {
        assert(stop == close * 1000 / speed);
        vstd::arithmetic::div_mod::lemma_fundamental_div_mod(close * 1000, speed);
        vstd::arithmetic::div_mod::lemma_mod_bound(close * 1000, speed);
        assert(stop * speed <= close * 1000) by (nonlinear_arith)
            requires
                stop == close * 1000 / speed,
                close * 1000 == speed * (close * 1000 / speed) + (close * 1000) % speed,
                (close * 1000) % speed >= 0;
        assert(close * 1000 <= travel * 1000) by (nonlinear_arith)
            requires close <= travel;
        assert(stop <= budget) by (nonlinear_arith)
            requires
                stop * speed <= close * 1000,
                close * 1000 <= speed * budget,
                speed >= 1;
    } else {
        assert(spec_mul_div(close, SCALE as int, speed) <= 0);
    }
}

/// Cross products of unit-range normals stay within range.
proof fn lemma_cross_product_bounds(n1: Vec3Fx, n2: Vec3Fx)
    requires
        n1.in_normal_range(),
        n2.in_normal_range(),
    ensures
        mag(n1.y as int * n2.z as int - n1.z as int * n2.y as int) <= 2_000_000,
        mag(n1.z as int * n2.x as int - n1.x as int * n2.z as int) <= 2_000_000,
        mag(n1.x as int * n2.y as int - n1.y as int * n2.x as int) <= 2_000_000,
        mag(n1.y as int * n2.z as int) <= 1_000_000,
        mag(n1.z as int * n2.y as int) <= 1_000_000,
        mag(n1.z as int * n2.x as int) <= 1_000_000,
        mag(n1.x as int * n2.z as int) <= 1_000_000,
        mag(n1.x as int * n2.y as int) <= 1_000_000,
        mag(n1.y as int * n2.x as int) <= 1_000_000,
{
    assert(mag(n1.y as int * n2.z as int) <= 1_000_000 && mag(n1.z as int * n2.y as int)
        <= 1_000_000 && mag(n1.z as int * n2.x as int) <= 1_000_000
        && mag(n1.x as int * n2.z as int) <= 1_000_000
        && mag(n1.x as int * n2.y as int) <= 1_000_000
        && mag(n1.y as int * n2.x as int) <= 1_000_000) by (nonlinear_arith)
        requires
            mag(n1.x as int) <= 1000, mag(n1.y as int) <= 1000, mag(n1.z as int) <= 1000,
            mag(n2.x as int) <= 1000, mag(n2.y as int) <= 1000, mag(n2.z as int) <= 1000;
    assert(mag(n1.y as int * n2.z as int - n1.z as int * n2.y as int) <= 2_000_000)
        by (nonlinear_arith)
        requires
            mag(n1.y as int) <= 1000, mag(n1.z as int) <= 1000,
            mag(n2.y as int) <= 1000, mag(n2.z as int) <= 1000;
    assert(mag(n1.z as int * n2.x as int - n1.x as int * n2.z as int) <= 2_000_000)
        by (nonlinear_arith)
        requires
            mag(n1.x as int) <= 1000, mag(n1.z as int) <= 1000,
            mag(n2.x as int) <= 1000, mag(n2.z as int) <= 1000;
    assert(mag(n1.x as int * n2.y as int - n1.y as int * n2.x as int) <= 2_000_000)
        by (nonlinear_arith)
        requires
            mag(n1.x as int) <= 1000, mag(n1.y as int) <= 1000,
            mag(n2.x as int) <= 1000, mag(n2.y as int) <= 1000;
}

/// Whether `n` is one of the six axis-aligned unit normals — the only
/// surface normals a voxel world's geometry produces.
pub open spec fn axis_unit_normal(n: Vec3Fx) -> bool {
    ||| (mag(n.x as int) == SCALE && n.y == 0 && n.z == 0)
    ||| (n.x == 0 && mag(n.y as int) == SCALE && n.z == 0)
    ||| (n.x == 0 && n.y == 0 && mag(n.z as int) == SCALE)
}

/// Non-penetration of a resolved slide against a single planar
/// obstruction with an axis-aligned normal: the slide velocity, and hence
/// the slide displacement, has exactly no component along the obstruction
/// normal, so the whole move's displacement along the normal is the
/// initial advance alone — which stops the skin depth short of the
/// reported contact distance. In fixed-point terms: the displacement's
/// component along the unit normal never exceeds `toi - skin_depth`.
#[verifier::rlimit(60)]
pub proof fn lemma_slide_non_penetration(c: XzSweep1, toi: int, n: Vec3Fx)
    requires
        c.wf(),
        0 < toi <= c.distance,
        axis_unit_normal(n),
    ensures
        ({
            let close = toi - c.skin_depth;
            let trem = spec_time_remaining(c.time_delta as int, close, c.speed as int);
            let (sx, sy, sz) = spec_slide_velocity(c, toi, n);
            let advance_x = spec_mul_div(c.velocity_x as int, close, c.speed as int);
            let advance_z = spec_mul_div(c.velocity_z as int, close, c.speed as int);
            let move_x = advance_x + spec_mul_div(sx, trem, SCALE as int);
            let move_y = spec_mul_div(sy, trem, SCALE as int);
            let move_z = advance_z + spec_mul_div(sz, trem, SCALE as int);
            &&& sx * n.x + sy * n.y + sz * n.z == 0
            &&& move_x * n.x + move_y * n.y + move_z * n.z
                == advance_x * n.x + advance_z * n.z
            &&& mag(move_x * n.x + move_y * n.y + move_z * n.z)
                <= mag(close) * (SCALE as int)
        }),
{
    lemma_xz_sweep1_bounds(c);
    let close = toi - c.skin_depth;
    let trem = spec_time_remaining(c.time_delta as int, close, c.speed as int);
    let rx = spec_mul_div(c.velocity_x as int, trem, c.time_delta as int);
    let rz = spec_mul_div(c.velocity_z as int, trem, c.time_delta as int);
    let advance_x = spec_mul_div(c.velocity_x as int, close, c.speed as int);
    let advance_z = spec_mul_div(c.velocity_z as int, close, c.speed as int);
    assert(mag(advance_x) * (c.speed as int) <= mag(c.velocity_x as int) * mag(close)) by {
        lemma_spec_mul_div_product_bound(c.velocity_x as int, close, c.speed as int);
    }
    assert(mag(advance_z) * (c.speed as int) <= mag(c.velocity_z as int) * mag(close)) by {
        lemma_spec_mul_div_product_bound(c.velocity_z as int, close, c.speed as int);
    }
    assert(mag(advance_x) <= mag(close)) by (nonlinear_arith)
        requires
            mag(advance_x) * (c.speed as int) <= mag(c.velocity_x as int) * mag(close),
            mag(c.velocity_x as int) <= c.speed,
            c.speed >= 1,
            mag(advance_x) >= 0,
            mag(close) >= 0;
    assert(mag(advance_z) <= mag(close)) by (nonlinear_arith)
        requires
            mag(advance_z) * (c.speed as int) <= mag(c.velocity_z as int) * mag(close),
            mag(c.velocity_z as int) <= c.speed,
            c.speed >= 1,
            mag(advance_z) >= 0,
            mag(close) >= 0;
    vstd::arithmetic::div_mod::lemma_div_of0(1000);
    if n.y == 0 && n.z == 0 {
        lemma_axis_projection_cancels(rx, n.x as int);
        let dot = spec_mul_div(rx * n.x + rz * 0, 1, SCALE as int);
        assert(rx * n.x + rz * 0 == rx * n.x);
        assert(rx - spec_mul_div(dot, n.x as int, SCALE as int) == 0);
        let (sx, sy, sz) = spec_slide_velocity(c, toi, n);
        assert(sx == 0);
        assert(mag(dot) * mag(0) == 0) by (nonlinear_arith);
        assert(spec_mul_div(dot, 0, SCALE as int) == 0);
        assert(sy == 0);
        assert(spec_mul_div(0, trem, SCALE as int) == 0);
        let move_x = advance_x + spec_mul_div(sx, trem, SCALE as int);
        let move_y = spec_mul_div(sy, trem, SCALE as int);
        let move_z = advance_z + spec_mul_div(sz, trem, SCALE as int);
        assert(sx * (n.x as int) == 0) by (nonlinear_arith)
            requires sx == 0;
        assert(sy * (n.y as int) == 0 && sz * (n.z as int) == 0) by (nonlinear_arith)
            requires n.y as int == 0, n.z as int == 0;
        assert(move_y * (n.y as int) == 0 && move_z * (n.z as int) == 0) by (nonlinear_arith)
            requires n.y as int == 0, n.z as int == 0;
        assert(advance_z * (n.z as int) == 0) by (nonlinear_arith)
            requires n.z as int == 0;
        assert(move_x == advance_x);
        assert(mag(move_x * (n.x as int)) == mag(advance_x) * 1000) by (nonlinear_arith)
            requires mag(n.x as int) == 1000, move_x == advance_x;
        assert(mag(advance_x) * 1000 <= mag(close) * 1000);
    } else if n.x == 0 && n.z == 0 {
        let dot = spec_mul_div(rx * 0 + rz * 0, 1, SCALE as int);
        assert(rx * 0 + rz * 0 == 0);
        assert(mag(0int) * mag(1int) == 0) by (nonlinear_arith);
        assert(dot == 0);
        let (sx, sy, sz) = spec_slide_velocity(c, toi, n);
        assert(mag(0int) * mag(n.x as int) == 0) by (nonlinear_arith);
        assert(mag(0int) * mag(n.y as int) == 0) by (nonlinear_arith);
        assert(mag(0int) * mag(n.z as int) == 0) by (nonlinear_arith);
        assert(spec_mul_div(0, n.x as int, SCALE as int) == 0);
        assert(spec_mul_div(0, n.y as int, SCALE as int) == 0);
        assert(spec_mul_div(0, n.z as int, SCALE as int) == 0);
        assert(sx == rx && sy == 0 && sz == rz);
        assert(spec_mul_div(0, trem, SCALE as int) == 0);
        let move_x = advance_x + spec_mul_div(sx, trem, SCALE as int);
        let move_y = spec_mul_div(sy, trem, SCALE as int);
        let move_z = advance_z + spec_mul_div(sz, trem, SCALE as int);
        assert(move_y == 0);
        assert(sx * (n.x as int) == 0 && sz * (n.z as int) == 0) by (nonlinear_arith)
            requires n.x as int == 0, n.z as int == 0;
        assert(sy * (n.y as int) == 0) by (nonlinear_arith)
            requires sy == 0;
        assert(move_x * (n.x as int) == 0 && move_z * (n.z as int) == 0) by (nonlinear_arith)
            requires n.x as int == 0, n.z as int == 0;
        assert(move_y * (n.y as int) == 0) by (nonlinear_arith)
            requires move_y == 0;
        assert(advance_x * (n.x as int) == 0 && advance_z * (n.z as int) == 0)
            by (nonlinear_arith)
            requires n.x as int == 0, n.z as int == 0;
        assert(0 <= mag(close) * (SCALE as int)) by (nonlinear_arith)
            requires mag(close) >= 0;
    } else {
        lemma_axis_projection_cancels(rz, n.z as int);
        let dot = spec_mul_div(rx * 0 + rz * n.z, 1, SCALE as int);
        assert(rx * 0 + rz * n.z == rz * n.z);
        assert(rz - spec_mul_div(dot, n.z as int, SCALE as int) == 0);
        let (sx, sy, sz) = spec_slide_velocity(c, toi, n);
        assert(sz == 0);
        assert(mag(dot) * mag(0) == 0) by (nonlinear_arith);
        assert(spec_mul_div(dot, 0, SCALE as int) == 0);
        assert(sx == rx && sy == 0);
        assert(spec_mul_div(0, trem, SCALE as int) == 0);
        let move_x = advance_x + spec_mul_div(sx, trem, SCALE as int);
        let move_y = spec_mul_div(sy, trem, SCALE as int);
        let move_z = advance_z + spec_mul_div(sz, trem, SCALE as int);
        assert(sz * (n.z as int) == 0) by (nonlinear_arith)
            requires sz == 0;
        assert(sx * (n.x as int) == 0 && sy * (n.y as int) == 0) by (nonlinear_arith)
            requires n.x as int == 0, n.y as int == 0;
        assert(move_x * (n.x as int) == 0 && move_y * (n.y as int) == 0) by (nonlinear_arith)
            requires n.x as int == 0, n.y as int == 0;
        assert(advance_x * (n.x as int) == 0) by (nonlinear_arith)
            requires n.x as int == 0;
        assert(move_z == advance_z);
        assert(mag(move_z * (n.z as int)) == mag(advance_z) * 1000) by (nonlinear_arith)
            requires mag(n.z as int) == 1000, move_z == advance_z;
        assert(mag(advance_z) * 1000 <= mag(close) * 1000);
    }
}

/// Projecting a velocity component onto its own axis and subtracting it
/// cancels exactly: with `u` a `SCALE`-long axis component, the fixed-point
/// projection of `v` along that axis is `v` itself.
proof fn lemma_axis_projection_cancels(v: int, u: int)
    requires
        mag(u) == SCALE,
    ensures
        v - spec_mul_div(spec_mul_div(v * u, 1, SCALE as int), u, SCALE as int) == 0,
{
    vstd::arithmetic::div_mod::lemma_div_of0(1000);
    assert(v > 0 && u > 0 ==> v * u > 0) by (nonlinear_arith);
    assert(v > 0 && u < 0 ==> v * u < 0) by (nonlinear_arith);
    assert(v < 0 && u > 0 ==> v * u < 0) by (nonlinear_arith);
    assert(v < 0 && u < 0 ==> v * u > 0) by (nonlinear_arith);
    assert(mag(v * u) == mag(v) * 1000) by (nonlinear_arith)
        requires mag(u) == 1000;
    vstd::arithmetic::div_mod::lemma_div_multiples_vanish(mag(v), 1000);
    assert(1000 * mag(v) == mag(v) * 1000);
    assert(mag(v) * 1000 / 1000 == mag(v));
    let dot = spec_mul_div(v * u, 1, SCALE as int);
    assert(mag(v * u) * 1 == mag(v * u));
    if v == 0 {
        assert(mag(v) == 0);
        assert(dot == 0);
        assert(mag(dot) * mag(u) == 0) by (nonlinear_arith)
            requires mag(dot) == 0;
        assert(spec_mul_div(dot, u, SCALE as int) == 0);
    } else {
        assert(mag(dot) == mag(v));
        let back = spec_mul_div(dot, u, SCALE as int);
        assert(mag(dot) * mag(u) == mag(v) * 1000) by (nonlinear_arith)
            requires mag(dot) == mag(v), mag(u) == 1000;
        if u > 0 {
            if v > 0 {
                assert(v * u > 0);
                assert(dot == mag(v));
                assert(back == mag(v));
            } else {
                assert(v * u < 0);
                assert(dot == -mag(v));
                assert(back == -mag(v));
            }
        } else {
            if v > 0 {
                assert(v * u < 0);
                assert(dot == -mag(v));
                assert(back == mag(v));
            } else {
                assert(v * u > 0);
                assert(dot == mag(v));
                assert(back == -mag(v));
            }
        }
        assert(back == v);
    }
}

/// The defining product bound of the truncating multiply-divide: the
/// result times the divisor never exceeds the product of the magnitudes.
proof fn lemma_spec_mul_div_product_bound(a: int, b: int, c: int)
    requires
        c >= 1,
    ensures
        mag(spec_mul_div(a, b, c)) * c <= mag(a) * mag(b),
{
    let x = mag(a) * mag(b);
    assert(x >= 0) by (nonlinear_arith)
        requires x == mag(a) * mag(b), mag(a) >= 0, mag(b) >= 0;
    vstd::arithmetic::div_mod::lemma_fundamental_div_mod(x, c);
    vstd::arithmetic::div_mod::lemma_mod_bound(x, c);
    vstd::arithmetic::div_mod::lemma_div_pos_is_pos(x, c);
    assert((x / c) * c <= x) by (nonlinear_arith)
        requires
            x == c * (x / c) + x % c,
            x % c >= 0;
    assert(mag(spec_mul_div(a, b, c)) == x / c);
}
} // verus!
