use kurve::curve::{wrap_angle_i64, Curve, MoveKeys};
use kurve::kurve::{
    check_border_axis_collision, check_border_collision, ArenaBounds, Collision, TAU_MICRORAD,
};
use kurve::point::{BoundingBox, Girth, Line, Point};

fn stationary_curve() -> Curve {
    Curve {
        player_id: 0,
        position: Point { x: 100, y: 100 },
        rotation: 0,
        velocity: 0,
        rotation_speed: 1000,
        girth: Girth::Normal,
        move_keys: MoveKeys { ccw: 1, cw: 2 },
        trail_fuse: 3000,
        trail_ts: 0,
        trail_active: true,
        lines: Vec::new(),
        alive: true,
        color: 0xFF00FF,
    }
}

#[test]
fn girth_increment_saturates_at_max() {
    let mut g = Girth::max();
    for _ in 0..10 {
        g = g.increment();
    }
    assert_eq!(g, Girth::Chungus);
    assert_eq!(g, Girth::max());
}

#[test]
fn girth_decrement_saturates_at_min() {
    let mut g = Girth::min();
    for _ in 0..10 {
        g = g.decrement();
    }
    assert_eq!(g, Girth::Tiny);
    assert_eq!(g, Girth::min());
}

#[test]
fn girth_steps_through_all_levels() {
    let mut g = Girth::Tiny;
    g = g.increment();
    assert_eq!(g, Girth::Small);
    g = g.increment();
    assert_eq!(g, Girth::Normal);
    g = g.increment();
    assert_eq!(g, Girth::Large);
    g = g.increment();
    assert_eq!(g, Girth::Larger);
    g = g.increment();
    assert_eq!(g, Girth::Chungus);
    assert_eq!(Girth::default(), Girth::Normal);
}

#[test]
fn interpolate_walks_dominant_axis() {
    let l = Line::interpolate(Point { x: 0, y: 0 }, Point { x: 4, y: 2 }, Girth::Normal);
    assert_eq!(l.points.len(), 4);
    assert_eq!(l.points[0], Point { x: 0, y: 0 });
    assert_eq!(l.points[1], Point { x: 1, y: 1 });
    assert_eq!(l.points[2], Point { x: 2, y: 1 });
    assert_eq!(l.points[3], Point { x: 3, y: 2 });
    assert_eq!(l.girth, Girth::Normal);
}

#[test]
fn interpolate_zero_length_move_keeps_one_sample() {
    let l = Line::interpolate(Point { x: 7, y: -3 }, Point { x: 7, y: -3 }, Girth::Tiny);
    assert_eq!(l.points.len(), 1);
    assert_eq!(l.points[0], Point { x: 7, y: -3 });
}

#[test]
fn bounding_box_samples_ring() {
    let b = BoundingBox::new(Point { x: 5, y: 5 }, 2);
    assert_eq!(b.0[0], Point { x: 5, y: 5 });
    assert_eq!(b.0[1], Point { x: 3, y: 3 });
    assert_eq!(b.0[2], Point { x: 5, y: 3 });
    assert_eq!(b.0[3], Point { x: 7, y: 3 });
    assert_eq!(b.0[4], Point { x: 7, y: 5 });
    assert_eq!(b.0[5], Point { x: 7, y: 7 });
    assert_eq!(b.0[6], Point { x: 5, y: 7 });
    assert_eq!(b.0[7], Point { x: 3, y: 7 });
    assert_eq!(b.0[8], Point { x: 3, y: 5 });
    let xs = b.xs();
    let ys = b.ys();
    assert_eq!(xs[1], 3);
    assert_eq!(ys[5], 7);
}

#[test]
fn border_check_boundary_point_is_inside() {
    // A box whose extreme samples sit exactly on the boundary is not out.
    let b = BoundingBox::new(Point { x: 2, y: 2 }, 2);
    assert!(!check_border_collision(0, 100, 0, 100, b));
    // One pixel further out on any axis trips the check.
    let b2 = BoundingBox::new(Point { x: 1, y: 2 }, 2);
    assert!(check_border_collision(0, 100, 0, 100, b2));
}

#[test]
fn border_axis_check_reports_side() {
    let b = BoundingBox::new(Point { x: 1, y: 50 }, 2);
    assert_eq!(check_border_axis_collision(0, 100, b.xs()), Some(Collision::Min));
    let b2 = BoundingBox::new(Point { x: 99, y: 50 }, 2);
    assert_eq!(check_border_axis_collision(0, 100, b2.xs()), Some(Collision::Max));
    let b3 = BoundingBox::new(Point { x: 50, y: 50 }, 2);
    assert_eq!(check_border_axis_collision(0, 100, b3.xs()), None);
}

#[test]
fn wrap_angle_stays_in_one_turn() {
    assert_eq!(wrap_angle_i64(0), 0);
    assert_eq!(wrap_angle_i64(TAU_MICRORAD + 5), 5);
    assert_eq!(wrap_angle_i64(-1), TAU_MICRORAD - 1);
    assert_eq!(wrap_angle_i64(-TAU_MICRORAD), 0);
}

#[test]
fn rotate_turns_by_rotation_speed_per_held_tick() {
    let mut c = stationary_curve();
    c.rotate(false, true);
    assert_eq!(c.rotation, 1000);
    c.rotate(false, true);
    assert_eq!(c.rotation, 2000);
    c.rotate(true, false);
    assert_eq!(c.rotation, 1000);
    // Both keys held cancel out.
    c.rotate(true, true);
    assert_eq!(c.rotation, 1000);
}

#[test]
fn next_pos_and_mv_move_along_unit_vector() {
    let mut c = stationary_curve();
    c.velocity = 60;
    // Due east for one second: 60 pixels.
    let p = c.next_pos(1000, 1_000_000, 0);
    assert_eq!(p, Point { x: 160, y: 100 });
    c.mv(1000, 1_000_000, 0);
    assert_eq!(c.position, Point { x: 160, y: 100 });
    // A zero-velocity curve stays put whatever the heading.
    c.velocity = 0;
    c.mv(1000, 1_000_000, 0);
    assert_eq!(c.position, Point { x: 160, y: 100 });
}

#[test]
fn random_pos_stays_inside_bounds() {
    let b = ArenaBounds { x_min: 10, x_max: 20, y_min: 30, y_max: 40 };
    for _ in 0..50 {
        let p = b.random_pos();
        assert!(p.x >= 10 && p.x < 20);
        assert!(p.y >= 30 && p.y < 40);
    }
}

#[test]
fn arena_bounds_derive_from_viewport() {
    let b = ArenaBounds::new_center(800, 600, 35, 55);
    // width 280, height 330, centred on (400, 300)
    assert_eq!(b.x_min, 400 - 140);
    assert_eq!(b.x_max, 400 + 140);
    assert_eq!(b.y_min, 300 - 165);
    assert_eq!(b.y_max, 300 + 165);
}

#[test]
fn new_trail_countdown_is_within_configured_bounds() {
    for _ in 0..20 {
        let f = Curve::new_trail_countdown();
        assert!((2000..4000).contains(&f));
    }
}
