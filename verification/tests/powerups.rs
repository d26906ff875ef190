use kurve::curve::{Curve, MoveKeys};
use kurve::kurve::{ArenaBounds, CurveInput, Kurve, KurvePhase, PowerSupply, UpdateInput};
use kurve::menu::MenuInput;
use kurve::point::{Girth, Point};
use kurve::powerup::{PowerMod, PowerModifier, PowerTimeout};

fn wide_bounds() -> ArenaBounds {
    ArenaBounds { x_min: 0, x_max: 1000, y_min: 0, y_max: 1000 }
}

fn quiet_menu() -> MenuInput {
    MenuInput {
        up: false,
        down: false,
        left: false,
        right: false,
        confirm: false,
        cancel: false,
        backspace: false,
        typed: None,
        pressed_key: None,
    }
}

fn idle_curve_input() -> CurveInput {
    CurveInput { ccw: false, cw: false, dir_x: 0, dir_y: 0, turn_x: 0, turn_y: 0 }
}

fn test_curve(id: usize, x: i64, y: i64) -> Curve {
    Curve {
        player_id: id,
        position: Point { x, y },
        rotation: 0,
        velocity: 60,
        rotation_speed: 39_270,
        girth: Girth::Normal,
        move_keys: MoveKeys { ccw: 1, cw: 2 },
        trail_fuse: 1_000_000,
        trail_ts: 0,
        trail_active: true,
        lines: Vec::new(),
        alive: true,
        color: 0x00FF00,
    }
}

fn make_input(now: u64) -> UpdateInput {
    UpdateInput {
        now,
        dt_ms: 16,
        size_x: 800,
        size_y: 600,
        pause: false,
        menu: quiet_menu(),
        curves: vec![idle_curve_input(), idle_curve_input()],
    }
}

fn apply_remove_roundtrip(kind: PowerModifier) -> Curve {
    let mut c = test_curve(0, 300, 300);
    kind.apply(&mut c, 100);
    kind.remove(&mut c, 200);
    c
}

#[test]
fn speed_modifiers_round_trip() {
    for kind in [PowerModifier::SpeedUp, PowerModifier::SpeedDown] {
        let c = apply_remove_roundtrip(kind);
        assert_eq!(c.velocity, 60);
        assert_eq!(c.rotation_speed, 39_270);
        assert_eq!(c.girth, Girth::Normal);
        assert!(c.trail_active);
    }
}

#[test]
fn rotation_modifiers_round_trip() {
    for kind in [PowerModifier::RotUp, PowerModifier::RotDown] {
        let c = apply_remove_roundtrip(kind);
        assert_eq!(c.rotation_speed, 39_270);
        assert_eq!(c.velocity, 60);
    }
}

#[test]
fn girth_modifiers_round_trip() {
    for kind in [PowerModifier::Chungus, PowerModifier::Anorexia] {
        let c = apply_remove_roundtrip(kind);
        assert_eq!(c.girth, Girth::Normal);
    }
}

#[test]
fn invulnerability_round_trip_restores_trail() {
    let mut c = test_curve(0, 300, 300);
    PowerModifier::Invulnerability.apply(&mut c, 100);
    assert!(!c.trail_active);
    assert_eq!(c.trail_fuse, u64::MAX);
    PowerModifier::Invulnerability.remove(&mut c, 200);
    assert!(c.trail_active);
    assert!((2000..4000).contains(&c.trail_fuse));
    assert_eq!(c.trail_ts, 200);
}

#[test]
fn speed_up_changes_velocity_by_step() {
    let mut c = test_curve(0, 300, 300);
    PowerModifier::SpeedUp.apply(&mut c, 0);
    assert_eq!(c.velocity, 70);
    PowerModifier::SpeedDown.apply(&mut c, 0);
    assert_eq!(c.velocity, 60);
}

#[test]
fn reset_empties_supply_and_rerolls_fuse() {
    let mut supply = PowerSupply {
        powermods: vec![(3, PowerMod::new(Point { x: 10, y: 10 }, PowerModifier::Chungus))],
        power_timeouts: vec![PowerTimeout { curve: 0, started: 5, ty: PowerModifier::SpeedUp }],
        power_fuse: u64::MAX,
        last_powermod: 7,
        last_id: 4,
    };
    supply.reset_powermods(42);
    assert_eq!(supply.powermods.len(), 0);
    assert_eq!(supply.power_timeouts.len(), 0);
    assert_eq!(supply.last_id, 0);
    assert_eq!(supply.last_powermod, 42);
    assert!((3000..6000).contains(&supply.power_fuse));
}

#[test]
fn pickup_is_collected_once_and_timed() {
    let mut k = Kurve::new(800, 600, 0);
    k.state = KurvePhase::Running;
    k.bounds = wide_bounds();
    k.curves[0] = test_curve(0, 300, 300);
    k.curves[1] = test_curve(1, 500, 400);
    // A pickup right under curve 0's head.
    k.powers.powermods = vec![(0, PowerMod::new(Point { x: 300, y: 300 }, PowerModifier::SpeedUp))];
    k.powers.last_id = 1;
    k.powers.power_fuse = u64::MAX;

    k.update(&make_input(50));

    assert_eq!(k.powers.powermods.len(), 0, "collected pickup leaves the spawned set");
    assert_eq!(k.powers.power_timeouts.len(), 1, "exactly one timeout per collection");
    assert_eq!(k.powers.power_timeouts[0].curve, 0);
    assert_eq!(k.powers.power_timeouts[0].started, 50);
    assert_eq!(k.curves[0].velocity, 70);
    assert_eq!(k.curves[1].velocity, 60);
}

#[test]
fn distant_pickup_stays_spawned() {
    let mut k = Kurve::new(800, 600, 0);
    k.state = KurvePhase::Running;
    k.bounds = wide_bounds();
    k.curves[0] = test_curve(0, 300, 300);
    k.curves[1] = test_curve(1, 500, 400);
    k.powers.powermods = vec![(0, PowerMod::new(Point { x: 40, y: 40 }, PowerModifier::SpeedUp))];
    k.powers.last_id = 1;
    k.powers.power_fuse = u64::MAX;

    k.update(&make_input(50));

    assert_eq!(k.powers.powermods.len(), 1);
    assert_eq!(k.powers.power_timeouts.len(), 0);
    assert_eq!(k.curves[0].velocity, 60);
}

#[test]
fn expired_timeout_reverses_its_effect() {
    let mut k = Kurve::new(800, 600, 0);
    k.state = KurvePhase::Running;
    k.bounds = wide_bounds();
    k.curves[0] = test_curve(0, 300, 300);
    k.curves[0].velocity = 70;
    k.curves[1] = test_curve(1, 500, 400);
    k.powers.power_timeouts = vec![PowerTimeout {
        curve: 0,
        started: 0,
        ty: PowerModifier::SpeedUp,
    }];
    k.powers.power_fuse = u64::MAX;
    k.powers.last_powermod = 0;

    // Not yet expired: the effect stays.
    k.update(&make_input(1000));
    assert_eq!(k.powers.power_timeouts.len(), 1);
    assert_eq!(k.curves[0].velocity, 70);

    // Past the fixed duration: reversed with the exact inverse.
    k.update(&make_input(30_000));
    assert_eq!(k.powers.power_timeouts.len(), 0);
    assert_eq!(k.curves[0].velocity, 60);
}

#[test]
fn spawn_scheduler_respects_fuse_and_cap() {
    let mut k = Kurve::new(800, 600, 0);
    k.state = KurvePhase::Running;
    k.bounds = wide_bounds();
    k.curves[0] = test_curve(0, 300, 300);
    k.curves[1] = test_curve(1, 500, 400);
    k.powers.power_fuse = 1000;
    k.powers.last_powermod = 0;

    // Before the fuse runs out nothing spawns.
    k.update(&make_input(500));
    assert_eq!(k.powers.powermods.len(), 0);

    // Once it has, one pickup spawns inside the arena under the next id,
    // and the fuse is re-rolled into the configured interval.
    k.update(&make_input(1500));
    assert_eq!(k.powers.powermods.len(), 1);
    assert_eq!(k.powers.powermods[0].0, 0);
    assert_eq!(k.powers.last_id, 1);
    let p = k.powers.powermods[0].1.point;
    assert!(p.x >= k.bounds.x_min && p.x < k.bounds.x_max);
    assert!(p.y >= k.bounds.y_min && p.y < k.bounds.y_max);
    assert!((3000..6000).contains(&k.powers.power_fuse));
}
