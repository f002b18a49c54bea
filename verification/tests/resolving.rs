use vorld::resolver::{
    begin_move_xz, begin_move_y, resolve_crease_sweep, resolve_first_sweep,
    resolve_overlap_check, resolve_slide_sweep, resolve_y_sweep, SweepOutcome, Vec3Fx,
    XzBegin, XzCreaseResult, XzFirstResult, XzSlideResult, YBegin,
};

#[test]
fn zero_velocity_moves_nothing() {
    let origin = Vec3Fx::new(0, 0, 0);
    assert!(matches!(begin_move_xz(origin, 0, 0, 16, 10), XzBegin::Stay));
    assert!(matches!(begin_move_y(origin, 0, 16, 10), YBegin::Stay));
}

#[test]
fn free_horizontal_move_travels_the_full_tick() {
    let origin = Vec3Fx::new(1_000, 2_000, 3_000);
    let ctx = match begin_move_xz(origin, 2_000, 0, 500, 10) {
        XzBegin::Sweep(c) => c,
        XzBegin::Stay => panic!("expected a sweep"),
    };
    assert_eq!(ctx.speed, 2_000);
    assert_eq!(ctx.distance, 2_000 * 500 / 1_000 + 10);
    match resolve_first_sweep(&ctx, &SweepOutcome::Miss) {
        XzFirstResult::Free { position } => {
            assert_eq!(position, Vec3Fx::new(2_000, 2_000, 3_000));
        },
        _ => panic!("expected a free move"),
    }
}

#[test]
fn head_on_contact_advances_to_skin_and_stops() {
    // Straight at a wall whose normal faces back at the mover: the slide
    // velocity vanishes, so the move ends at the contact minus the skin.
    let origin = Vec3Fx::new(0, 0, 0);
    let ctx = match begin_move_xz(origin, 1_000, 0, 1_000, 10) {
        XzBegin::Sweep(c) => c,
        XzBegin::Stay => panic!("expected a sweep"),
    };
    assert_eq!(ctx.distance, 1_010);
    let outcome = SweepOutcome::Contact { toi: 500, normal: Vec3Fx::new(-1_000, 0, 0) };
    match resolve_first_sweep(&ctx, &outcome) {
        XzFirstResult::Stopped { position } => {
            // Advance of toi - skin along +X: stops the skin depth short.
            assert_eq!(position, Vec3Fx::new(490, 0, 0));
        },
        other => panic!("expected a dead stop, got {:?}", other),
    }
}

#[test]
fn slide_along_wall_is_tangent() {
    // Moving diagonally (+X, +Z) into a wall facing -Z: the slide keeps
    // only the +X part; the displacement along the wall normal stays
    // within the contact distance minus the skin.
    let origin = Vec3Fx::new(0, 0, 0);
    let ctx = match begin_move_xz(origin, 1_000, 1_000, 1_000, 10) {
        XzBegin::Sweep(c) => c,
        XzBegin::Stay => panic!("expected a sweep"),
    };
    assert_eq!(ctx.speed, 1_414);
    let outcome = SweepOutcome::Contact { toi: 100, normal: Vec3Fx::new(0, 0, -1_000) };
    let ctx2 = match resolve_first_sweep(&ctx, &outcome) {
        XzFirstResult::Slide(c2) => c2,
        other => panic!("expected a slide, got {:?}", other),
    };
    // The slide velocity has no component along the wall normal.
    assert_eq!(ctx2.slide_z, 0);
    assert_eq!(ctx2.slide_y, 0);
    assert!(ctx2.slide_x > 0);
    // The advance toward the wall stopped within toi - skin.
    assert!(ctx2.position.z <= 100 - 10);
    let moved = match resolve_slide_sweep(&ctx2, &SweepOutcome::Miss) {
        XzSlideResult::Moved { position } => position,
        other => panic!("expected a clear slide, got {:?}", other),
    };
    // Sliding added nothing along the wall normal.
    assert_eq!(moved.z, ctx2.position.z);
    assert!(moved.x > ctx2.position.x);
}

#[test]
fn crease_confines_motion_to_the_meeting_line() {
    // Slide into a second wall: the remaining motion projects onto the
    // line where the two walls meet (here vertical), and a further
    // contact on that line blocks the move entirely.
    let origin = Vec3Fx::new(0, 0, 0);
    let ctx = match begin_move_xz(origin, 1_000, 1_000, 1_000, 10) {
        XzBegin::Sweep(c) => c,
        XzBegin::Stay => panic!("expected a sweep"),
    };
    let first = SweepOutcome::Contact { toi: 100, normal: Vec3Fx::new(0, 0, -1_000) };
    let ctx2 = match resolve_first_sweep(&ctx, &first) {
        XzFirstResult::Slide(c2) => c2,
        other => panic!("expected a slide, got {:?}", other),
    };
    // The slide (along +X) meets the floor (normal +Y): the crease of
    // the wall and the floor runs along +X, so the slide survives on it.
    let second = SweepOutcome::Contact { toi: 50, normal: Vec3Fx::new(0, 1_000, 0) };
    match resolve_slide_sweep(&ctx2, &second) {
        XzSlideResult::Crease(c3) => {
            assert_eq!(c3.crease_y, 0);
            assert_eq!(c3.crease_z, 0);
            assert!(c3.crease_x > 0);
            match resolve_crease_sweep(&c3, &SweepOutcome::Miss) {
                XzCreaseResult::Moved { position } => {
                    assert!(position.x > c3.position.x);
                    assert_eq!(position.z, c3.position.z);
                },
                other => panic!("expected a clear crease move, got {:?}", other),
            }
            match resolve_crease_sweep(&c3, &SweepOutcome::Contact {
                toi: 0,
                normal: Vec3Fx::new(-1_000, 0, 0),
            }) {
                XzCreaseResult::Blocked { position } => {
                    assert_eq!(position, c3.position);
                },
                other => panic!("expected a blocked crease, got {:?}", other),
            }
        },
        other => panic!("expected a crease, got {:?}", other),
    }
}

#[test]
fn vertical_sweep_grounds_only_when_falling() {
    let origin = Vec3Fx::new(0, 5_000, 0);
    let ctx = match begin_move_y(origin, -7_500, 16, 10) {
        YBegin::Sweep(c) => c,
        YBegin::Stay => panic!("expected a sweep"),
    };
    assert_eq!(ctx.distance, 7_500 * 16 / 1_000 + 10);
    let hit = SweepOutcome::Contact { toi: 50, normal: Vec3Fx::new(0, 1_000, 0) };
    let (pos, grounded) = resolve_y_sweep(&ctx, &hit);
    assert_eq!(pos.y, 5_000 - (50 - 10));
    assert!(grounded);
    let (pos2, grounded2) = resolve_y_sweep(&ctx, &SweepOutcome::Miss);
    assert_eq!(pos2.y, 5_000 - 120);
    assert!(!grounded2);

    // Rising: a contact overhead never grounds.
    let up = match begin_move_y(origin, 7_500, 16, 10) {
        YBegin::Sweep(c) => c,
        YBegin::Stay => panic!("expected a sweep"),
    };
    let overhead = SweepOutcome::Contact { toi: 30, normal: Vec3Fx::new(0, -1_000, 0) };
    let (pos3, grounded3) = resolve_y_sweep(&up, &overhead);
    assert_eq!(pos3.y, 5_000 + (30 - 10));
    assert!(!grounded3);
}

#[test]
fn overlap_backstop_reverts_the_move() {
    let moved = Vec3Fx::new(9, 9, 9);
    let reset = Vec3Fx::new(1, 2, 3);
    assert_eq!(resolve_overlap_check(moved, reset, true), reset);
    assert_eq!(resolve_overlap_check(moved, reset, false), moved);
}
