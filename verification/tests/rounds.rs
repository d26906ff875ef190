use kurve::curve::{Curve, MoveKeys};
use kurve::kurve::{compute_collisions, ArenaBounds, CurveInput, Kurve, KurvePhase, UpdateInput};
use kurve::menu::MenuInput;
use kurve::player::Player;
use kurve::point::{Girth, Line, Point};

fn quiet_menu() -> MenuInput {
    MenuInput {
        up: false,
        down: false,
        left: false,
        right: false,
        confirm: false,
        cancel: false,
        backspace: false,
        typed: None,
        pressed_key: None,
    }
}

fn idle_curve_input() -> CurveInput {
    CurveInput { ccw: false, cw: false, dir_x: 0, dir_y: 0, turn_x: 0, turn_y: 0 }
}

fn test_curve(id: usize, x: i64, y: i64) -> Curve {
    Curve {
        player_id: id,
        position: Point { x, y },
        rotation: 0,
        velocity: 0,
        rotation_speed: 1000,
        girth: Girth::Normal,
        move_keys: MoveKeys { ccw: 1, cw: 2 },
        trail_fuse: 1_000_000,
        trail_ts: 0,
        trail_active: true,
        lines: Vec::new(),
        alive: true,
        color: 0x00FF00,
    }
}

fn wide_bounds() -> ArenaBounds {
    ArenaBounds { x_min: 0, x_max: 1000, y_min: 0, y_max: 1000 }
}

fn one_point_segment(x: i64, y: i64) -> Line {
    Line { points: vec![Point { x, y }], girth: Girth::Tiny }
}

#[test]
fn border_elimination_and_boundary_survival() {
    // Curve 0 pokes its box outside the left wall; curve 1 sits with its
    // box exactly on the boundary and survives.
    let curves = vec![test_curve(0, 1, 500), test_curve(1, 2, 500)];
    let inputs = vec![idle_curve_input(), idle_curve_input()];
    let r = compute_collisions(&curves, wide_bounds(), 16, &inputs);
    assert_eq!(r, vec![true, false]);
}

#[test]
fn gapping_curve_is_invulnerable_to_every_check() {
    // Outside the wall, but the trail is not drawn: no elimination.
    let mut c = test_curve(0, 1, 500);
    c.trail_active = false;
    let curves = vec![c];
    let inputs = vec![idle_curve_input()];
    let r = compute_collisions(&curves, wide_bounds(), 16, &inputs);
    assert_eq!(r, vec![false]);
}

#[test]
fn simultaneous_collisions_eliminate_every_offender() {
    // Both curves are over the wall on the same tick; the read-only scan
    // eliminates the full set whatever order it visits them in.
    let curves = vec![test_curve(0, 1, 500), test_curve(1, 999, 500)];
    let inputs = vec![idle_curve_input(), idle_curve_input()];
    let r = compute_collisions(&curves, wide_bounds(), 16, &inputs);
    assert_eq!(r, vec![true, true]);
}

#[test]
fn self_collision_grace_skips_recent_segments() {
    // A Normal curve skips its 15 most recent segments. With exactly 15
    // overlapping segments nothing is scanned; a 16th, older one hits.
    let mut c = test_curve(0, 100, 100);
    for _ in 0..15 {
        c.lines.push(one_point_segment(100, 100));
    }
    let inputs = vec![idle_curve_input()];
    let r = compute_collisions(&vec![c], wide_bounds(), 16, &inputs);
    assert_eq!(r, vec![false]);

    let mut c2 = test_curve(0, 100, 100);
    for _ in 0..16 {
        c2.lines.push(one_point_segment(100, 100));
    }
    let r2 = compute_collisions(&vec![c2], wide_bounds(), 16, &inputs);
    assert_eq!(r2, vec![true]);
}

#[test]
fn other_trail_has_no_grace() {
    // Curve 1's single segment under curve 0's box eliminates curve 0.
    let mut other = test_curve(1, 300, 300);
    other.lines.push(one_point_segment(100, 100));
    let curves = vec![test_curve(0, 100, 100), other];
    let inputs = vec![idle_curve_input(), idle_curve_input()];
    let r = compute_collisions(&curves, wide_bounds(), 16, &inputs);
    assert_eq!(r, vec![true, false]);
}

#[test]
fn win_detection_counts_living_curves() {
    let mut k = Kurve::new(800, 600, 0);
    k.players.push(Player::new(String::from("Player 3")));
    k.curves.push(test_curve(2, 300, 300));

    // [alive, alive, dead]: no winner.
    k.curves[2].alive = false;
    assert_eq!(k.check_winner(), None);

    // [alive, dead, dead]: winner is index 0.
    k.curves[1].alive = false;
    assert_eq!(k.check_winner(), Some(0));

    // [dead, dead, dead]: no winner.
    k.curves[0].alive = false;
    assert_eq!(k.check_winner(), None);
}

#[test]
fn trail_gating_appends_exactly_while_active() {
    let mut c = test_curve(0, 100, 100);
    c.trail_fuse = 3000;
    // Active: one segment per tick.
    c.tick_trail(100, 16, 0, 0);
    assert_eq!(c.lines.len(), 1);
    c.tick_trail(200, 16, 0, 0);
    assert_eq!(c.lines.len(), 2);
    // The fuse runs out: the gap starts, nothing is appended.
    c.tick_trail(3200, 16, 0, 0);
    assert!(!c.trail_active);
    assert_eq!(c.lines.len(), 2);
    // After the invulnerability window the trail returns with a fresh
    // fuse and draws again.
    c.tick_trail(3600, 16, 0, 0);
    assert!(c.trail_active);
    assert_eq!(c.lines.len(), 3);
    assert!((2000..4000).contains(&c.trail_fuse));
    assert_eq!(c.trail_ts, 3600);
}

#[test]
fn round_phases_advance_through_the_machine() {
    let mut k = Kurve::new(800, 600, 0);
    assert_eq!(k.state, KurvePhase::Setup);

    // Confirm on the start entry (the cursor starts there).
    let mut start = UpdateInput {
        now: 10,
        dt_ms: 16,
        size_x: 800,
        size_y: 600,
        pause: false,
        menu: quiet_menu(),
        curves: vec![idle_curve_input(), idle_curve_input()],
    };
    start.menu.confirm = true;
    assert_eq!(k.update(&start), None);
    assert_eq!(k.state, KurvePhase::StartCountdown { started: 10 });
    // Starting recomputed the bounds to the play rectangle: 35% x 55% of
    // the viewport, centred on it.
    assert_eq!(k.bounds, ArenaBounds { x_min: 260, x_max: 540, y_min: 135, y_max: 465 });

    // The countdown holds until its duration has elapsed...
    let idle = UpdateInput {
        now: 1000,
        dt_ms: 16,
        size_x: 800,
        size_y: 600,
        pause: false,
        menu: quiet_menu(),
        curves: vec![idle_curve_input(), idle_curve_input()],
    };
    k.update(&idle);
    assert_eq!(k.state, KurvePhase::StartCountdown { started: 10 });

    // ... then the round goes live.
    k.update(&make_input(3200));
    assert_eq!(k.state, KurvePhase::Running);

    // Park the curves at known spots so later ticks cannot collide.
    k.curves[0] = test_curve(0, 300, 300);
    k.curves[1] = test_curve(1, 500, 400);

    // Pause toggles out of Running and back.
    let mut pause = make_input(3300);
    pause.pause = true;
    k.update(&pause);
    assert_eq!(k.state, KurvePhase::Paused);
    let mut unpause = make_input(3400);
    unpause.pause = true;
    k.update(&unpause);
    assert_eq!(k.state, KurvePhase::Running);
}

fn make_input(now: u64) -> UpdateInput {
    UpdateInput {
        now,
        dt_ms: 16,
        size_x: 800,
        size_y: 600,
        pause: false,
        menu: quiet_menu(),
        curves: vec![idle_curve_input(), idle_curve_input()],
    }
}

#[test]
fn lone_survivor_wins_and_scores() {
    let mut k = Kurve::new(800, 600, 0);
    k.state = KurvePhase::Running;
    k.bounds = wide_bounds();
    k.curves[0] = test_curve(0, 300, 300);
    k.curves[1] = test_curve(1, 500, 400);
    k.curves[1].alive = false;

    let r = k.update(&make_input(50));
    assert_eq!(r, Some(0));
    assert_eq!(k.state, KurvePhase::Winner { started: 50, id: 0 });
    assert_eq!(k.players[0].score, 1);
    assert_eq!(k.players[1].score, 0);
}

#[test]
fn winner_gloat_leads_into_next_countdown() {
    let mut k = Kurve::new(800, 600, 0);
    k.state = KurvePhase::Winner { started: 0, id: 0 };
    k.update(&make_input(3100));
    assert_eq!(k.state, KurvePhase::StartCountdown { started: 3100 });
    // The round reset re-armed every curve.
    for c in k.curves.iter() {
        assert!(c.alive);
        assert!(c.trail_active);
        assert_eq!(c.lines.len(), 0);
        assert_eq!(c.velocity, 60);
        assert_eq!(c.girth, Girth::Normal);
    }
    assert_eq!(k.powers.powermods.len(), 0);
    assert_eq!(k.powers.power_timeouts.len(), 0);
}

#[test]
fn pause_cancel_returns_to_setup() {
    let mut k = Kurve::new(800, 600, 0);
    k.state = KurvePhase::Paused;
    let mut input = make_input(100);
    input.menu.cancel = true;
    k.update(&input);
    assert_eq!(k.state, KurvePhase::Setup);
    // The staging rectangle is restored: 35% x 55% of the viewport,
    // centred at (70%, 50%).
    assert_eq!(k.bounds, ArenaBounds { x_min: 420, x_max: 700, y_min: 135, y_max: 465 });
}

#[test]
fn staging_curves_wrap_to_the_opposite_edge() {
    let mut k = Kurve::new(800, 600, 0);
    k.bounds = wide_bounds();
    k.curves[0] = test_curve(0, 1, 500);
    k.curves[1] = test_curve(1, 500, 999);
    let inputs = vec![idle_curve_input(), idle_curve_input()];
    k.tick_setup_curves(&inputs, 16, 50);
    // Curve 0's box crossed below x_min: wrapped to x_max, not killed.
    assert_eq!(k.curves[0].position, Point { x: 1000, y: 500 });
    assert!(k.curves[0].alive);
    // Curve 1's box crossed above y_max: wrapped to y_min.
    assert_eq!(k.curves[1].position, Point { x: 500, y: 0 });
    assert!(k.curves[1].alive);
}
