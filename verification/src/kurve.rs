//! The arena: round phases, arena bounds, the collision detector and the
//! per-tick simulation step.
//!
//! Time is an injected monotonic millisecond clock: every tick receives
//! `now` from the caller and all stored timestamps are values of that
//! clock. Headings are integer microradians; the caller turns a heading
//! into a scaled unit vector (the one float computation of the system) and
//! hands it in, so the whole rule set stays on plain integers.

use vstd::prelude::*;

use crate::curve::{displacement, Curve, MoveKeys};
use crate::menu::{
    dec_item_rel, home_item_rel, nav_item_rel, spec_nav_focus, ActiveModifier, KurveMenu,
    KurveMenuItem, MenuInput, PlayerConfig, PlayerConfigFocus, SelectAction,
};
use crate::player::Player;
use crate::point::{bbox_points, BoundingBox, Girth, Line, Point, COORD_LIMIT};
use crate::powerup::{spec_apply, spec_remove, PowerMod, PowerModifier, PowerTimeout};

verus! {

/// Default rotation speed, microradians per tick (π/8 × 0.1).
pub const DEFAULT_ROTATION: i64 = 39_270;

/// Default velocity, pixels per second.
pub const DEFAULT_VELOCITY: i64 = 60;

/// The minimum time a curve keeps drawing before a gap, milliseconds.
pub const TRAIL_SKIP_MIN: u64 = 2_000;

/// The maximum time a curve keeps drawing before a gap, milliseconds.
pub const TRAIL_SKIP_MAX: u64 = 4_000;

/// How long the winner phase gloats (and the countdown runs), milliseconds.
pub const WINNER_GLOAT_DURATION: u64 = 3_000;

/// Curve invulnerability window while it is not leaving a trail, ms.
pub const INV_DURATION: u64 = 300;

/// Minimum time between power-up spawns, milliseconds.
pub const MIN_POWERMOD_FUSE: u64 = 3_000;

/// Maximum time between power-up spawns, milliseconds.
pub const MAX_POWERMOD_FUSE: u64 = 6_000;

/// How long a collected power-up effect lasts, milliseconds.
pub const POWERMOD_DURATION: u64 = 30_000;

/// Half the side of a spawned pickup's square bounds, pixels.
pub const POWERMOD_HALF_SIZE: i64 = 8;

/// At most this many uncollected pickups exist at once.
pub const MAX_SPAWNED_POWERMODS: usize = 10;

/// During the staging phase a curve keeps only this many trail segments.
pub const SETUP_TRAIL_CAP: usize = 20;

/// Self-collision grace: this many recent segments are skipped per girth
/// level above the first.
pub const GRACE_PER_LEVEL: usize = 15;

/// Arena size multipliers for a small roster, percent of the viewport.
pub const SIZE_SMALL_X_PCT: i64 = 35;

/// See [`SIZE_SMALL_X_PCT`].
pub const SIZE_SMALL_Y_PCT: i64 = 55;

/// Multipliers placing the staging arena, percent of the viewport.
pub const SETUP_KURVE_CENTER_X_PCT: i64 = 70;

/// See [`SETUP_KURVE_CENTER_X_PCT`].
pub const SETUP_KURVE_CENTER_Y_PCT: i64 = 50;

/// Positions are clamped to this magnitude when a move commits.
pub const POS_LIMIT: i64 = 100_000_000;

/// Trail samples never exceed this magnitude (a position plus one move).
pub const TRAIL_LIMIT: i64 = 200_000_000;

/// Velocity saturates at this magnitude.
pub const VEL_LIMIT: i64 = 1_000_000;

/// Rotation speed saturates at this magnitude, microradians per tick.
pub const ROT_SPEED_LIMIT: i64 = 1_000_000_000;

/// One full turn in microradians.
pub const TAU_MICRORAD: i64 = 6_283_185;

/// Scale of the unit heading vectors handed in by the caller.
pub const DIR_SCALE: i64 = 1_000_000;

/// A single tick never spans more than this many milliseconds.
pub const MAX_TICK_MS: u64 = 100_000;

/// A displacement commits at most this many pixels per axis per tick.
pub const DISP_LIMIT: i64 = 100_000_000;

/// The staging rectangle for a viewport: 35% x 55% of it, centred at
/// (70%, 50%) — the arena that sits beside the setup menu.
pub open spec fn setup_bounds_for(size_x: int, size_y: int) -> ArenaBounds {
    ArenaBounds {
        x_min: (size_x * SETUP_KURVE_CENTER_X_PCT / 100 - (size_x * SIZE_SMALL_X_PCT / 100)
            / 2) as i64,
        x_max: (size_x * SETUP_KURVE_CENTER_X_PCT / 100 + (size_x * SIZE_SMALL_X_PCT / 100)
            / 2) as i64,
        y_min: (size_y * SETUP_KURVE_CENTER_Y_PCT / 100 - (size_y * SIZE_SMALL_Y_PCT / 100)
            / 2) as i64,
        y_max: (size_y * SETUP_KURVE_CENTER_Y_PCT / 100 + (size_y * SIZE_SMALL_Y_PCT / 100)
            / 2) as i64,
    }
}

/// The play rectangle for a viewport: 35% x 55% of it, centred on it.
pub open spec fn running_bounds_for(size_x: int, size_y: int) -> ArenaBounds {
    ArenaBounds {
        x_min: (size_x / 2 - (size_x * SIZE_SMALL_X_PCT / 100) / 2) as i64,
        x_max: (size_x / 2 + (size_x * SIZE_SMALL_X_PCT / 100) / 2) as i64,
        y_min: (size_y / 2 - (size_y * SIZE_SMALL_Y_PCT / 100) / 2) as i64,
        y_max: (size_y / 2 + (size_y * SIZE_SMALL_Y_PCT / 100) / 2) as i64,
    }
}

/// Holds the absolute bounds of the playable rectangle on each axis.
#[derive(Clone, Copy, Debug, PartialEq, Eq, Structural)]
pub struct ArenaBounds {
    pub x_min: i64,
    pub x_max: i64,
    pub y_min: i64,
    pub y_max: i64,
}

impl ArenaBounds {
    /// A usable arena: non-empty on both axes and inside the position box.
    pub open spec fn wf(self) -> bool {
        &&& -POS_LIMIT <= self.x_min < self.x_max <= POS_LIMIT
        &&& -POS_LIMIT <= self.y_min < self.y_max <= POS_LIMIT
    }

    /// Arena bounds around an arbitrary centre: the viewport size scaled
    /// by the percent multipliers, split evenly around the centre.
    pub fn new(center: Point, size_x: i64, size_y: i64, mul_x_pct: i64, mul_y_pct: i64) -> (b:
        ArenaBounds)
        requires
            center.in_range(10_000_000),
            0 <= size_x <= 10_000_000,
            0 <= size_y <= 10_000_000,
            1 <= mul_x_pct <= 100,
            1 <= mul_y_pct <= 100,
            size_x * mul_x_pct >= 200,
            size_y * mul_y_pct >= 200,
        ensures
            b.x_min == center.x - (size_x * mul_x_pct / 100) / 2,
            b.x_max == center.x + (size_x * mul_x_pct / 100) / 2,
            b.y_min == center.y - (size_y * mul_y_pct / 100) / 2,
            b.y_max == center.y + (size_y * mul_y_pct / 100) / 2,
            b.wf(),
    {
        proof {
            assert(0 <= size_x * mul_x_pct <= 1_000_000_000) by (nonlinear_arith)
                requires
                    0 <= size_x <= 10_000_000,
                    1 <= mul_x_pct <= 100,
            ;
            assert(0 <= size_y * mul_y_pct <= 1_000_000_000) by (nonlinear_arith)
                requires
                    0 <= size_y <= 10_000_000,
                    1 <= mul_y_pct <= 100,
            ;
        }
        let w = size_x * mul_x_pct / 100;
        let h = size_y * mul_y_pct / 100;
        proof {
            assert(2 <= w <= 10_000_000 && 2 <= h <= 10_000_000) by (nonlinear_arith)
                requires
                    200 <= size_x * mul_x_pct <= 1_000_000_000,
                    200 <= size_y * mul_y_pct <= 1_000_000_000,
                    w == size_x * mul_x_pct / 100,
                    h == size_y * mul_y_pct / 100,
            ;
        }
        ArenaBounds {
            x_min: center.x - w / 2,
            x_max: center.x + w / 2,
            y_min: center.y - h / 2,
            y_max: center.y + h / 2,
        }
    }

    /// Arena bounds centred on the viewport.
    pub fn new_center(size_x: i64, size_y: i64, mul_x_pct: i64, mul_y_pct: i64) -> (b: ArenaBounds)
        requires
            0 <= size_x <= 10_000_000,
            0 <= size_y <= 10_000_000,
            1 <= mul_x_pct <= 100,
            1 <= mul_y_pct <= 100,
            size_x * mul_x_pct >= 200,
            size_y * mul_y_pct >= 200,
        ensures
            b.x_min == size_x / 2 - (size_x * mul_x_pct / 100) / 2,
            b.x_max == size_x / 2 + (size_x * mul_x_pct / 100) / 2,
            b.y_min == size_y / 2 - (size_y * mul_y_pct / 100) / 2,
            b.y_max == size_y / 2 + (size_y * mul_y_pct / 100) / 2,
            b.wf(),
    {
        let center = Point { x: size_x / 2, y: size_y / 2 };
        ArenaBounds::new(center, size_x, size_y, mul_x_pct, mul_y_pct)
    }

    /// A uniformly random point inside the arena.
    pub fn random_pos(&self) -> (p: Point)
        requires
            self.wf(),
        ensures
            self.x_min <= p.x < self.x_max,
            self.y_min <= p.y < self.y_max,
            p.in_range(POS_LIMIT as int),
    {
        let x = crate::rng::rand_i64_range(self.x_min, self.x_max);
        let y = crate::rng::rand_i64_range(self.y_min, self.y_max);
        Point { x, y }
    }
}

/// `p` lies strictly outside the rectangle on either axis. A point exactly
/// on the boundary is inside.
pub open spec fn point_outside(p: Point, x_min: int, x_max: int, y_min: int, y_max: int) -> bool {
    p.x < x_min || p.x > x_max || p.y < y_min || p.y > y_max
}

/// Some sample point of the box lies outside the rectangle.
pub open spec fn bbox_outside(
    bb: Seq<Point>,
    x_min: int,
    x_max: int,
    y_min: int,
    y_max: int,
) -> bool {
    exists|i: int| 0 <= i < bb.len() && point_outside(#[trigger] bb[i], x_min, x_max, y_min, y_max)
}

/// Border check: true exactly when some sample point of the box has left
/// the rectangle; a box entirely on or inside the boundary passes.
pub fn check_border_collision(x_min: i64, x_max: i64, y_min: i64, y_max: i64, bbox: BoundingBox) -> (r:
    bool)
    ensures
        r == bbox_outside(bbox.0@, x_min as int, x_max as int, y_min as int, y_max as int),
{
    let mut i: usize = 0;
    while i < 9
        invariant
            0 <= i <= 9,
            forall|k: int|
                0 <= k < i ==> !point_outside(
                    #[trigger] bbox.0@[k],
                    x_min as int,
                    x_max as int,
                    y_min as int,
                    y_max as int,
                ),
        decreases 9 - i,
    {
        let p = bbox.0[i];
        if p.x < x_min || p.x > x_max || p.y < y_min || p.y > y_max {
            assert(point_outside(bbox.0@[i as int], x_min as int, x_max as int, y_min as int,
                y_max as int));
            return true;
        }
        i = i + 1;
    }
    false
}

/// Which side of an axis interval a value escaped through.
#[derive(Clone, Copy, Debug, PartialEq, Eq, Structural)]
pub enum Collision {
    Min,
    Max,
}

/// The first axis value that leaves `[min, max]`, scanned in order:
/// `Min` if it fell below, `Max` if it rose above, `None` when all stay in.
pub open spec fn axis_collision(vals: Seq<i64>, min: int, max: int) -> Option<Collision>
    decreases vals.len(),
{
    if vals.len() == 0 {
        None
    } else if vals[0] < min {
        Some(Collision::Min)
    } else if vals[0] > max {
        Some(Collision::Max)
    } else {
        axis_collision(vals.drop_first(), min, max)
    }
}

/// Axis border check used by the staging wrap: reports through which side
/// the first out-of-range sample escaped.
pub fn check_border_axis_collision(min: i64, max: i64, vals: [i64; 9]) -> (r: Option<Collision>)
    ensures
        r == axis_collision(vals@, min as int, max as int),
{
    let mut i: usize = 0;
    assert(vals@.skip(0) =~= vals@);
    while i < 9
        invariant
            0 <= i <= 9,
            axis_collision(vals@, min as int, max as int) == axis_collision(
                vals@.skip(i as int),
                min as int,
                max as int,
            ),
        decreases 9 - i,
    {
        let v = vals[i];
        assert(vals@.skip(i as int)[0] == vals@[i as int]);
        if v < min {
            return Some(Collision::Min);
        }
        if v > max {
            return Some(Collision::Max);
        }
        assert(vals@.skip(i as int).drop_first() =~= vals@.skip(i as int + 1));
        i = i + 1;
    }
    assert(vals@.skip(9) =~= Seq::<i64>::empty());
    None
}

/// A sample point of the moving head's box coincides with a sample point
/// of the box that `g`-girthed trail point `q` spans.
pub open spec fn line_point_hits(q: Point, g: Girth, bb: Seq<Point>) -> bool {
    exists|a: int, b: int|
        0 <= a < 9 && 0 <= b < bb.len() && #[trigger] bbox_points(q, g.spec_trail_radius())[a]
            == #[trigger] bb[b]
}

/// Some sample point of the segment, expanded by the segment's own girth,
/// meets the moving head's box.
pub open spec fn line_hits_bbox(l: Line, bb: Seq<Point>) -> bool {
    exists|k: int| 0 <= k < l.points@.len() && line_point_hits(#[trigger] l.points@[k], l.girth, bb)
}

/// Trail collision check: the head's box `bbox` against one stored trail
/// segment, every sample re-expanded by the segment's own girth, tested by
/// exact grid equality.
pub fn check_bbox_colision(bbox: BoundingBox, line: &Line) -> (r: bool)
    requires
        line.in_range(TRAIL_LIMIT as int),
    ensures
        r == line_hits_bbox(*line, bbox.0@),
{
    let n = line.points.len();
    let mut k: usize = 0;
    while k < n
        invariant
            0 <= k <= n,
            n == line.points@.len(),
            line.in_range(TRAIL_LIMIT as int),
            forall|q: int| 0 <= q < k ==> !line_point_hits(#[trigger] line.points@[q], line.girth, bbox.0@),
        decreases n - k,
    {
        let p = line.points[k];
        let point_bbox = BoundingBox::new(p, line.girth.trail_radius());
        let mut a: usize = 0;
        while a < 9
            invariant
                0 <= a <= 9,
                0 <= k < line.points@.len(),
                p == line.points@[k as int],
                point_bbox.0@ == bbox_points(p, line.girth.spec_trail_radius()),
                forall|q: int, b: int|
                    0 <= q < a && 0 <= b < 9 ==> !(#[trigger] bbox_points(
                        p,
                        line.girth.spec_trail_radius(),
                    )[q] == #[trigger] bbox.0@[b]),
            decreases 9 - a,
        {
            let lp = point_bbox.0[a];
            let mut b: usize = 0;
            while b < 9
                invariant
                    0 <= b <= 9,
                    0 <= a < 9,
                    0 <= k < line.points@.len(),
                    p == line.points@[k as int],
                    lp == point_bbox.0@[a as int],
                    point_bbox.0@ == bbox_points(p, line.girth.spec_trail_radius()),
                    forall|c: int|
                        0 <= c < b ==> !(#[trigger] bbox_points(
                            p,
                            line.girth.spec_trail_radius(),
                        )[a as int] == bbox.0@[c]),
                decreases 9 - b,
            {
                let cp = bbox.0[b];
                if lp.x == cp.x && lp.y == cp.y {
                    proof {
                        assert(lp == cp);
                        assert(bbox_points(p, line.girth.spec_trail_radius())[a as int]
                            == bbox.0@[b as int]);
                        assert(line_point_hits(p, line.girth, bbox.0@));
                        assert(p == line.points@[k as int]);
                    }
                    return true;
                }
                b = b + 1;
            }
            a = a + 1;
        }
        assert(!line_point_hits(line.points@[k as int], line.girth, bbox.0@));
        k = k + 1;
    }
    false
}


/// Represents the current phase of the game.
#[derive(Clone, Copy, Debug, PartialEq, Eq, Structural)]
pub enum KurvePhase {
    /// The game is currently being prepared.
    Setup,
    /// The game is prepared and waiting to launch.
    StartCountdown { started: u64 },
    /// The game is running.
    Running,
    /// The game is paused.
    Paused,
    /// The game is gloating the winner.
    Winner { started: u64, id: usize },
}

/// The supply of transient power-ups: the spawned, uncollected pickups
/// keyed by a monotonically increasing id, the active timed effects, and
/// the randomized spawn scheduling state.
#[derive(Debug)]
pub struct PowerSupply {
    /// Spawned, uncollected pickups, in spawn order with strictly
    /// increasing ids.
    pub powermods: Vec<(u64, crate::powerup::PowerMod)>,
    /// Active effects waiting to be reversed.
    pub power_timeouts: Vec<crate::powerup::PowerTimeout>,
    /// Time until the next spawn attempt fires, milliseconds.
    pub power_fuse: u64,
    /// When the last spawn attempt fired.
    pub last_powermod: u64,
    /// The id the next spawned pickup will take.
    pub last_id: u64,
}

impl PowerSupply {
    /// Ids are strictly increasing, below the next id to hand out, and
    /// every pickup sits inside the position box.
    pub open spec fn wf(self) -> bool {
        &&& forall|i: int, j: int|
            0 <= i < j < self.powermods@.len() ==> (#[trigger] self.powermods@[i]).0
                < (#[trigger] self.powermods@[j]).0
        &&& forall|i: int|
            0 <= i < self.powermods@.len() ==> (#[trigger] self.powermods@[i]).0 < self.last_id
        &&& forall|i: int|
            0 <= i < self.powermods@.len() ==> (#[trigger] self.powermods@[i]).1.point.in_range(
                POS_LIMIT as int,
            )
    }

    /// Spawn scheduling: once the fuse has run out, spawn one pickup of a
    /// random kind at a random arena position under the fresh id — unless
    /// the spawn cap is full — then re-roll the fuse either way.
    pub fn tick_powermods(&mut self, bounds: ArenaBounds, now: u64)
        requires
            old(self).wf(),
            bounds.wf(),
            old(self).last_powermod <= now,
        ensures
            final(self).wf(),
            final(self).power_timeouts == old(self).power_timeouts,
            now - old(self).last_powermod < old(self).power_fuse ==> *final(self) == *old(self),
            now - old(self).last_powermod >= old(self).power_fuse ==> {
                &&& final(self).last_powermod == now
                &&& MIN_POWERMOD_FUSE <= final(self).power_fuse < MAX_POWERMOD_FUSE
                &&& if old(self).powermods@.len() < MAX_SPAWNED_POWERMODS && old(self).last_id
                    < u64::MAX {
                    &&& final(self).powermods@.len() == old(self).powermods@.len() + 1
                    &&& forall|i: int|
                        0 <= i < old(self).powermods@.len() ==> final(self).powermods@[i] == old(self).powermods@[i]
                    &&& final(self).powermods@.last().0 == old(self).last_id
                    &&& bounds.x_min <= final(self).powermods@.last().1.point.x < bounds.x_max
                    &&& bounds.y_min <= final(self).powermods@.last().1.point.y < bounds.y_max
                    &&& final(self).last_id == old(self).last_id + 1
                } else {
                    &&& final(self).powermods == old(self).powermods
                    &&& final(self).last_id == old(self).last_id
                }
            },
            final(self).last_powermod <= now,
    {
        if now - self.last_powermod >= self.power_fuse {
            if self.powermods.len() < MAX_SPAWNED_POWERMODS && self.last_id < u64::MAX {
                let kind = random_kind();
                let pm = crate::powerup::PowerMod::new(bounds.random_pos(), kind);
                let id = self.last_id;
                self.powermods.push((id, pm));
                self.last_id = self.last_id + 1;
            }
            self.last_powermod = now;
            self.power_fuse = crate::rng::rand_u64_range(MIN_POWERMOD_FUSE, MAX_POWERMOD_FUSE);
        }
    }

    /// Round reset: the spawned set and the timeout set are emptied, the
    /// id counter starts over and the next spawn fuse is freshly
    /// randomized within the configured bounds. Any effect in flight is
    /// discarded rather than reversed.
    pub fn reset_powermods(&mut self, now: u64)
        ensures
            final(self).powermods@.len() == 0,
            final(self).power_timeouts@.len() == 0,
            final(self).last_id == 0,
            final(self).last_powermod == now,
            MIN_POWERMOD_FUSE <= final(self).power_fuse < MAX_POWERMOD_FUSE,
            final(self).wf(),
    {
        self.power_fuse = crate::rng::rand_u64_range(MIN_POWERMOD_FUSE, MAX_POWERMOD_FUSE);
        self.last_powermod = now;
        self.powermods = Vec::new();
        self.power_timeouts = Vec::new();
        self.last_id = 0;
    }

    /// Records that `curve` collected an effect of kind `ty` at `now`.
    pub fn add_timeout(&mut self, curve: usize, ty: crate::powerup::PowerModifier, now: u64)
        ensures
            final(self).power_timeouts@ == old(self).power_timeouts@.push(
                crate::powerup::PowerTimeout { curve, started: now, ty },
            ),
            final(self).powermods == old(self).powermods,
            final(self).power_fuse == old(self).power_fuse,
            final(self).last_powermod == old(self).last_powermod,
            final(self).last_id == old(self).last_id,
            old(self).wf() ==> final(self).wf(),
    {
        self.power_timeouts.push(
            crate::powerup::PowerTimeout { curve, started: now, ty },
        );
    }
}

/// A uniformly random modifier kind.
fn random_kind() -> (k: crate::powerup::PowerModifier)
{
    let r = crate::rng::rand_u64_range(0, 7);
    if r == 0 {
        crate::powerup::PowerModifier::SpeedUp
    } else if r == 1 {
        crate::powerup::PowerModifier::RotUp
    } else if r == 2 {
        crate::powerup::PowerModifier::Invulnerability
    } else if r == 3 {
        crate::powerup::PowerModifier::Anorexia
    } else if r == 4 {
        crate::powerup::PowerModifier::SpeedDown
    } else if r == 5 {
        crate::powerup::PowerModifier::RotDown
    } else {
        crate::powerup::PowerModifier::Chungus
    }
}

/// One curve's share of a tick's input: which steering keys are held,
/// and the heading unit vector (scaled by [`DIR_SCALE`]) before and
/// after this tick's rotation. The collision probe uses the heading at
/// tick start; the committed move uses the turned heading.
#[derive(Clone, Copy, Debug, PartialEq, Eq, Structural)]
pub struct CurveInput {
    /// The counter-clockwise key is held.
    pub ccw: bool,
    /// The clockwise key is held.
    pub cw: bool,
    /// Heading unit vector at tick start, x component.
    pub dir_x: i64,
    /// Heading unit vector at tick start, y component.
    pub dir_y: i64,
    /// Heading unit vector after this tick's rotation, x component.
    pub turn_x: i64,
    /// Heading unit vector after this tick's rotation, y component.
    pub turn_y: i64,
}

impl CurveInput {
    /// All components inside the unit-vector scale.
    pub open spec fn valid(self) -> bool {
        &&& -DIR_SCALE <= self.dir_x <= DIR_SCALE
        &&& -DIR_SCALE <= self.dir_y <= DIR_SCALE
        &&& -DIR_SCALE <= self.turn_x <= DIR_SCALE
        &&& -DIR_SCALE <= self.turn_y <= DIR_SCALE
    }
}


/// The candidate next position the collision detector probes for curve
/// `c`: one tick ahead along the heading unit vector at tick start.
pub open spec fn probe_point(c: Curve, dt: int, inp: CurveInput) -> Point {
    Point {
        x: (c.position.x + displacement(c.velocity as int, dt, inp.dir_x as int)) as i64,
        y: (c.position.y + displacement(c.velocity as int, dt, inp.dir_y as int)) as i64,
    }
}

/// The nine sample points probed for curve `c` this tick.
pub open spec fn probe_bbox(c: Curve, dt: int, inp: CurveInput) -> Seq<Point> {
    bbox_points(probe_point(c, dt, inp), c.girth.spec_radius())
}

/// How many of a curve's own most recent segments its collision scan
/// skips: [`GRACE_PER_LEVEL`] per girth level above the first — a thicker
/// curve spans more of the trail it has just drawn.
pub open spec fn self_grace(g: Girth) -> int {
    GRACE_PER_LEVEL * (if g.level() >= 1 {
        g.level() - 1
    } else {
        0
    })
}

/// How many of curve `j`'s segments the scan for curve `i` examines: all
/// of them, except that a curve skips its own grace window of most recent
/// segments.
pub open spec fn trail_scan_limit(curves: Seq<Curve>, i: int, j: int) -> int {
    let len = curves[j].lines@.len() as int;
    if i == j {
        if len - self_grace(curves[i].girth) >= 0 {
            len - self_grace(curves[i].girth)
        } else {
            0
        }
    } else {
        len
    }
}

/// Curve `i`'s probe box meets a scanned segment of curve `j`'s trail.
pub open spec fn hits_trail(
    curves: Seq<Curve>,
    dt: int,
    inputs: Seq<CurveInput>,
    i: int,
    j: int,
) -> bool {
    exists|k: int|
        0 <= k < trail_scan_limit(curves, i, j) && line_hits_bbox(
            #[trigger] curves[j].lines@[k],
            probe_bbox(curves[i], dt, inputs[i]),
        )
}

/// Curve `i`'s probe box has a sample point beyond the arena border.
pub open spec fn hits_border(
    curves: Seq<Curve>,
    bounds: ArenaBounds,
    dt: int,
    inputs: Seq<CurveInput>,
    i: int,
) -> bool {
    bbox_outside(
        probe_bbox(curves[i], dt, inputs[i]),
        bounds.x_min as int,
        bounds.x_max as int,
        bounds.y_min as int,
        bounds.y_max as int,
    )
}

/// Whether curve `i` collides this tick: only while its trail is drawn —
/// a gapping curve is invulnerable to every check — and then exactly when
/// its probe box leaves the arena or meets any scanned trail segment.
/// A pure function of the tick-start state, so the outcome cannot depend
/// on the order curves are scanned in.
pub open spec fn curve_collides(
    curves: Seq<Curve>,
    bounds: ArenaBounds,
    dt: int,
    inputs: Seq<CurveInput>,
    i: int,
) -> bool {
    &&& curves[i].trail_active
    &&& (hits_border(curves, bounds, dt, inputs, i) || exists|j: int|
        0 <= j < curves.len() && #[trigger] hits_trail(curves, dt, inputs, i, j))
}

/// Executable form of [`self_grace`].
pub fn grace_len(g: Girth) -> (r: usize)
    ensures
        r == self_grace(g),
{
    match g {
        Girth::Tiny => 0,
        Girth::Small => 0,
        Girth::Normal => 15,
        Girth::Large => 30,
        Girth::Larger => 45,
        Girth::Chungus => 60,
    }
}

/// The collision verdict for one curve, read-only over the tick-start
/// state: exactly [`curve_collides`].
fn collides_one(
    curves: &Vec<Curve>,
    bounds: ArenaBounds,
    dt_ms: u64,
    inputs: &Vec<CurveInput>,
    i: usize,
) -> (b: bool)
    requires
        inputs@.len() == curves@.len(),
        i < curves@.len(),
        forall|q: int| 0 <= q < curves@.len() ==> (#[trigger] curves@[q]).wf(),
        forall|q: int| 0 <= q < inputs@.len() ==> (#[trigger] inputs@[q]).valid(),
        dt_ms <= MAX_TICK_MS,
    ensures
        b == curve_collides(curves@, bounds, dt_ms as int, inputs@, i as int),
{
    let c = &curves[i];
    if !c.trail_active {
        return false;
    }
    let inp = inputs[i];
    let np = c.next_pos(dt_ms, inp.dir_x, inp.dir_y);
    proof {
        crate::curve::lemma_displacement_bound(c.velocity as int, dt_ms as int, inp.dir_x as int);
        crate::curve::lemma_displacement_bound(c.velocity as int, dt_ms as int, inp.dir_y as int);
        assert(np == probe_point(curves@[i as int], dt_ms as int, inputs@[i as int]));
    }
    let bb = BoundingBox::new(np, c.girth.radius());
    proof {
        assert(bb.0@ =~= probe_bbox(curves@[i as int], dt_ms as int, inputs@[i as int]));
    }
    if check_border_collision(bounds.x_min, bounds.x_max, bounds.y_min, bounds.y_max, bb) {
        proof {
            assert(hits_border(curves@, bounds, dt_ms as int, inputs@, i as int));
        }
        return true;
    }
    let n = curves.len();
    let grace = grace_len(c.girth);
    let mut j: usize = 0;
    while j < n
        invariant
            0 <= j <= n,
            n == curves@.len(),
            inputs@.len() == curves@.len(),
            i < curves@.len(),
            forall|q: int| 0 <= q < curves@.len() ==> (#[trigger] curves@[q]).wf(),
            dt_ms <= MAX_TICK_MS,
            grace == self_grace(curves@[i as int].girth),
            curves@[i as int].trail_active,
            bb.0@ == probe_bbox(curves@[i as int], dt_ms as int, inputs@[i as int]),
            forall|q: int|
                0 <= q < j ==> !(#[trigger] hits_trail(curves@, dt_ms as int, inputs@, i as int, q)),
        decreases n - j,
    {
        let lines_len = curves[j].lines.len();
        let limit: usize = if i == j {
            if lines_len >= grace {
                lines_len - grace
            } else {
                0
            }
        } else {
            lines_len
        };
        assert(limit == trail_scan_limit(curves@, i as int, j as int));
        let mut k: usize = 0;
        while k < limit
            invariant
                0 <= k <= limit,
                j < n,
                n == curves@.len(),
                inputs@.len() == curves@.len(),
                i < curves@.len(),
                forall|q: int| 0 <= q < curves@.len() ==> (#[trigger] curves@[q]).wf(),
                limit == trail_scan_limit(curves@, i as int, j as int),
                limit <= curves@[j as int].lines@.len(),
                curves@[i as int].trail_active,
                bb.0@ == probe_bbox(curves@[i as int], dt_ms as int, inputs@[i as int]),
                forall|q: int|
                    0 <= q < k ==> !line_hits_bbox(
                        #[trigger] curves@[j as int].lines@[q],
                        probe_bbox(curves@[i as int], dt_ms as int, inputs@[i as int]),
                    ),
            decreases limit - k,
        {
            let hit = check_bbox_colision(bb, &curves[j].lines[k]);
            if hit {
                proof {
                    assert(line_hits_bbox(
                        curves@[j as int].lines@[k as int],
                        probe_bbox(curves@[i as int], dt_ms as int, inputs@[i as int]),
                    ));
                    assert(hits_trail(curves@, dt_ms as int, inputs@, i as int, j as int));
                    assert(curve_collides(curves@, bounds, dt_ms as int, inputs@, i as int));
                }
                return true;
            }
            k = k + 1;
        }
        proof {
            assert(!hits_trail(curves@, dt_ms as int, inputs@, i as int, j as int));
        }
        j = j + 1;
    }
    proof {
        assert(!curve_collides(curves@, bounds, dt_ms as int, inputs@, i as int));
    }
    false
}

/// The full read-only collision scan: one verdict per curve, each a pure
/// function of the tick-start state. Eliminations are applied only after
/// this scan completes, so a tick's outcome is independent of the order
/// the curves are visited in.
pub fn compute_collisions(
    curves: &Vec<Curve>,
    bounds: ArenaBounds,
    dt_ms: u64,
    inputs: &Vec<CurveInput>,
) -> (r: Vec<bool>)
    requires
        inputs@.len() == curves@.len(),
        forall|q: int| 0 <= q < curves@.len() ==> (#[trigger] curves@[q]).wf(),
        forall|q: int| 0 <= q < inputs@.len() ==> (#[trigger] inputs@[q]).valid(),
        dt_ms <= MAX_TICK_MS,
    ensures
        r@.len() == curves@.len(),
        forall|q: int|
            0 <= q < r@.len() ==> r@[q] == curve_collides(
                curves@,
                bounds,
                dt_ms as int,
                inputs@,
                q,
            ),
{
    let n = curves.len();
    let mut r: Vec<bool> = Vec::new();
    let mut i: usize = 0;
    while i < n
        invariant
            0 <= i <= n,
            n == curves@.len(),
            inputs@.len() == curves@.len(),
            forall|q: int| 0 <= q < curves@.len() ==> (#[trigger] curves@[q]).wf(),
            forall|q: int| 0 <= q < inputs@.len() ==> (#[trigger] inputs@[q]).valid(),
            dt_ms <= MAX_TICK_MS,
            r@.len() == i,
            forall|q: int|
                0 <= q < i ==> r@[q] == curve_collides(curves@, bounds, dt_ms as int, inputs@, q),
        decreases n - i,
    {
        let b = collides_one(curves, bounds, dt_ms, inputs, i);
        r.push(b);
        i = i + 1;
    }
    r
}


/// The set of curves a collision scan eliminates when the indices are
/// visited in the given order, every verdict read from the untouched
/// tick-start state.
pub open spec fn scan_in_order(
    curves: Seq<Curve>,
    bounds: ArenaBounds,
    dt: int,
    inputs: Seq<CurveInput>,
    order: Seq<int>,
) -> Set<int>
    decreases order.len(),
{
    if order.len() == 0 {
        Set::empty()
    } else {
        let rest = scan_in_order(curves, bounds, dt, inputs, order.drop_last());
        if curve_collides(curves, bounds, dt, inputs, order.last()) {
            rest.insert(order.last())
        } else {
            rest
        }
    }
}

/// The curves eliminated this tick, as a pure function of the tick-start
/// state alone.
pub open spec fn eliminated_set(
    curves: Seq<Curve>,
    bounds: ArenaBounds,
    dt: int,
    inputs: Seq<CurveInput>,
) -> Set<int> {
    Set::new(|i: int| 0 <= i < curves.len() && curve_collides(curves, bounds, dt, inputs, i))
}

/// A scan in any order yields exactly the visited indices whose curves
/// collide — the verdicts never depend on what was visited before.
pub proof fn lemma_scan_characterization(
    curves: Seq<Curve>,
    bounds: ArenaBounds,
    dt: int,
    inputs: Seq<CurveInput>,
    order: Seq<int>,
)
    ensures
        forall|x: int|
            #[trigger] scan_in_order(curves, bounds, dt, inputs, order).contains(x) <==> (
            order.contains(x) && curve_collides(curves, bounds, dt, inputs, x)),
    decreases order.len(),
{
    if order.len() == 0 {
        assert(forall|x: int| !order.contains(x));
    } else {
        lemma_scan_characterization(curves, bounds, dt, inputs, order.drop_last());
        assert forall|x: int|
            #[trigger] scan_in_order(curves, bounds, dt, inputs, order).contains(x) <==> (
            order.contains(x) && curve_collides(curves, bounds, dt, inputs, x)) by {
            assert(order.contains(x) <==> (order.drop_last().contains(x) || order.last() == x))
                by {
                if order.contains(x) {
                    let k = choose|k: int| 0 <= k < order.len() && order[k] == x;
                    if k < order.len() - 1 {
                        assert(order.drop_last()[k] == x);
                        assert(order.drop_last().contains(x));
                    }
                }
                if order.drop_last().contains(x) {
                    let k = choose|k: int|
                        0 <= k < order.drop_last().len() && order.drop_last()[k] == x;
                    assert(order[k] == x);
                    assert(order.contains(x));
                }
                if order.last() == x {
                    assert(order[order.len() - 1] == x);
                    assert(order.contains(x));
                }
            }
            assert(scan_in_order(curves, bounds, dt, inputs, order.drop_last()).contains(x) <==> (
            order.drop_last().contains(x) && curve_collides(curves, bounds, dt, inputs, x)));
        }
    }
}

/// Order independence: two read-only scans that visit the same set of
/// curves eliminate exactly the same set, whatever order each visits
/// them in. Eliminations are applied only after the scan, so this is the
/// tick's outcome.
pub proof fn lemma_collision_order_independence(
    curves: Seq<Curve>,
    bounds: ArenaBounds,
    dt: int,
    inputs: Seq<CurveInput>,
    order1: Seq<int>,
    order2: Seq<int>,
)
    requires
        forall|x: int| order1.contains(x) <==> order2.contains(x),
    ensures
        scan_in_order(curves, bounds, dt, inputs, order1) == scan_in_order(
            curves,
            bounds,
            dt,
            inputs,
            order2,
        ),
{
    lemma_scan_characterization(curves, bounds, dt, inputs, order1);
    lemma_scan_characterization(curves, bounds, dt, inputs, order2);
    assert(scan_in_order(curves, bounds, dt, inputs, order1) =~= scan_in_order(
        curves,
        bounds,
        dt,
        inputs,
        order2,
    ));
}

/// A scan that visits every curve index eliminates exactly
/// [`eliminated_set`], the order-free description.
pub proof fn lemma_scan_complete(
    curves: Seq<Curve>,
    bounds: ArenaBounds,
    dt: int,
    inputs: Seq<CurveInput>,
    order: Seq<int>,
)
    requires
        forall|x: int| order.contains(x) <==> 0 <= x < curves.len(),
    ensures
        scan_in_order(curves, bounds, dt, inputs, order) == eliminated_set(
            curves,
            bounds,
            dt,
            inputs,
        ),
{
    lemma_scan_characterization(curves, bounds, dt, inputs, order);
    assert(scan_in_order(curves, bounds, dt, inputs, order) =~= eliminated_set(
        curves,
        bounds,
        dt,
        inputs,
    ));
}

/// Self-collision grace: a curve's scan of its own trail stops
/// [`self_grace`] segments short of the end, so its most recent segments
/// can never eliminate it; a matching segment older than the window
/// always does (while the curve is drawing its trail).
pub proof fn lemma_self_collision_grace(
    curves: Seq<Curve>,
    bounds: ArenaBounds,
    dt: int,
    inputs: Seq<CurveInput>,
    i: int,
)
    requires
        0 <= i < curves.len(),
    ensures
        curves[i].lines@.len() >= self_grace(curves[i].girth) ==> trail_scan_limit(curves, i, i)
            == curves[i].lines@.len() - self_grace(curves[i].girth),
        curves[i].lines@.len() < self_grace(curves[i].girth) ==> trail_scan_limit(curves, i, i)
            == 0,
        hits_trail(curves, dt, inputs, i, i) <==> (exists|k: int|
            0 <= k < trail_scan_limit(curves, i, i) && line_hits_bbox(
                #[trigger] curves[i].lines@[k],
                probe_bbox(curves[i], dt, inputs[i]),
            )),
        forall|k: int|
            0 <= k < trail_scan_limit(curves, i, i) && line_hits_bbox(
                #[trigger] curves[i].lines@[k],
                probe_bbox(curves[i], dt, inputs[i]),
            ) && curves[i].trail_active ==> curve_collides(curves, bounds, dt, inputs, i),
{
    assert forall|k: int|
        0 <= k < trail_scan_limit(curves, i, i) && line_hits_bbox(
            curves[i].lines@[k],
            probe_bbox(curves[i], dt, inputs[i]),
        ) && curves[i].trail_active implies curve_collides(curves, bounds, dt, inputs, i) by {
        assert(hits_trail(curves, dt, inputs, i, i));
    }
}

/// Border containment: a curve whose probe box has any sample point
/// strictly outside the arena is eliminated that tick (while its trail
/// is drawn); a box entirely on or inside the boundary trips no border
/// check.
pub proof fn lemma_border_containment(
    curves: Seq<Curve>,
    bounds: ArenaBounds,
    dt: int,
    inputs: Seq<CurveInput>,
    i: int,
)
    requires
        0 <= i < curves.len(),
    ensures
        curves[i].trail_active && bbox_outside(
            probe_bbox(curves[i], dt, inputs[i]),
            bounds.x_min as int,
            bounds.x_max as int,
            bounds.y_min as int,
            bounds.y_max as int,
        ) ==> curve_collides(curves, bounds, dt, inputs, i),
        (forall|a: int|
            0 <= a < probe_bbox(curves[i], dt, inputs[i]).len() ==> !point_outside(
                #[trigger] probe_bbox(curves[i], dt, inputs[i])[a],
                bounds.x_min as int,
                bounds.x_max as int,
                bounds.y_min as int,
                bounds.y_max as int,
            )) ==> !hits_border(curves, bounds, dt, inputs, i),
{
}


/// How many curves in the sequence are alive.
pub open spec fn count_alive(cs: Seq<Curve>) -> int
    decreases cs.len(),
{
    if cs.len() == 0 {
        0
    } else {
        count_alive(cs.drop_last()) + if cs.last().alive {
            1int
        } else {
            0int
        }
    }
}

/// What a round reset does to one curve, apart from the trail
/// timestamp: position re-randomized inside the arena, trail cleared and
/// re-armed, liveness and the physical parameters restored to their
/// defaults; identity, steering keys and colour are kept.
pub open spec fn curve_reset_core(before: Curve, after: Curve, bounds: ArenaBounds) -> bool {
    &&& after.player_id == before.player_id
    &&& after.move_keys == before.move_keys
    &&& after.color == before.color
    &&& bounds.x_min <= after.position.x < bounds.x_max
    &&& bounds.y_min <= after.position.y < bounds.y_max
    &&& 0 <= after.rotation < TAU_MICRORAD
    &&& after.alive
    &&& after.lines@.len() == 0
    &&& after.trail_active
    &&& TRAIL_SKIP_MIN <= after.trail_fuse < TRAIL_SKIP_MAX
    &&& after.velocity == DEFAULT_VELOCITY
    &&& after.girth == Girth::Normal
    &&& after.rotation_speed == DEFAULT_ROTATION
}

/// [`curve_reset_core`], with the trail timestamp also kept.
pub open spec fn curve_reset_rel(before: Curve, after: Curve, bounds: ArenaBounds) -> bool {
    &&& curve_reset_core(before, after, bounds)
    &&& after.trail_ts == before.trail_ts
}

/// Achtung die Kurve: the whole game state.
#[derive(Debug)]
pub struct Kurve {
    /// Where the arena starts and ends on each axis.
    pub bounds: ArenaBounds,
    /// Players involved in the game.
    pub players: Vec<Player>,
    /// The curves in the game; index `i` belongs to player `i`, and the
    /// correspondence is maintained through every roster edit.
    pub curves: Vec<Curve>,
    /// Current game phase.
    pub state: KurvePhase,
    /// The power-up supply.
    pub powers: PowerSupply,
    /// The setup menu.
    pub menu: KurveMenu,
}

impl Kurve {
    /// The menu mirrors the roster: one config row per player whose slot
    /// equals its position, then the add-player and start entries; the
    /// colour and key pools shrink and grow in lockstep with the roster.
    pub open spec fn menu_wf(self) -> bool {
        let n = self.players@.len() as int;
        &&& self.menu.items@.len() == n + 2
        &&& forall|i: int|
            0 <= i < n ==> ((#[trigger] self.menu.items@[i]) matches
                KurveMenuItem::PlayerCurveConfig(c) && c.id == i)
        &&& self.menu.items@[n] is AddPlayer
        &&& self.menu.items@[n + 1] is Start
        &&& self.menu.selected < self.menu.items@.len()
        &&& self.menu.colors@.len() == self.menu.keys@.len()
        &&& n + self.menu.colors@.len() == 5
        &&& (self.menu.active_mod matches Some(ActiveModifier::Color(m)) ==> m.wf())
        &&& (self.menu.active_mod is Some ==> self.menu.items@[self.menu.selected as int] is
            PlayerCurveConfig)
    }

    /// The game state invariant: a usable arena, aligned player and
    /// curve arrays, every curve inside the machine bounds, a sound
    /// power-up supply whose timeouts point at real curves, and a menu
    /// that mirrors the roster.
    pub open spec fn wf(self) -> bool {
        &&& self.bounds.wf()
        &&& self.players@.len() == self.curves@.len()
        &&& forall|i: int| 0 <= i < self.curves@.len() ==> (#[trigger] self.curves@[i]).wf()
        &&& forall|i: int|
            0 <= i < self.curves@.len() ==> (#[trigger] self.curves@[i]).player_id == i
        &&& self.powers.wf()
        &&& forall|i: int|
            0 <= i < self.powers.power_timeouts@.len() ==> (#[trigger] self.powers.power_timeouts@[i]).curve
                < self.curves@.len()
        &&& self.menu_wf()
    }

    /// Every stored timestamp lies at or before `now`: the injected
    /// clock is monotonic, so a tick never sees a timestamp from its
    /// future.
    pub open spec fn ts_ok(self, now: int) -> bool {
        &&& forall|i: int|
            0 <= i < self.curves@.len() ==> (#[trigger] self.curves@[i]).trail_ts <= now
        &&& self.powers.last_powermod <= now
        &&& forall|i: int|
            0 <= i < self.powers.power_timeouts@.len() ==> (
            #[trigger] self.powers.power_timeouts@[i]).started <= now
        &&& (self.state matches KurvePhase::StartCountdown { started } ==> started <= now)
        &&& (self.state matches KurvePhase::Winner { started, id } ==> started <= now)
    }

    /// Whether the game is paused.
    pub fn paused(&self) -> (r: bool)
        ensures
            r == (self.state is Paused),
    {
        match self.state {
            KurvePhase::Paused => true,
            _ => false,
        }
    }

    /// Running and Paused toggle into each other; any other phase
    /// ignores the pause key.
    pub fn toggle_pause(&mut self)
        ensures
            old(self).state is Running ==> final(self).state == KurvePhase::Paused,
            old(self).state is Paused ==> final(self).state == KurvePhase::Running,
            !(old(self).state is Running) && !(old(self).state is Paused) ==> final(self).state
                == old(self).state,
            *final(self) == (Kurve { state: final(self).state, ..*old(self) }),
    {
        match self.state {
            KurvePhase::Running => self.state = KurvePhase::Paused,
            KurvePhase::Paused => self.state = KurvePhase::Running,
            _ => {},
        }
    }

    /// The smaller staging rectangle, placed beside the setup menu.
    pub fn set_setup_bounds(&mut self, size_x: i64, size_y: i64)
        requires
            100 <= size_x <= 1_000_000,
            100 <= size_y <= 1_000_000,
        ensures
            final(self).bounds == setup_bounds_for(size_x as int, size_y as int),
            final(self).bounds.wf(),
            *final(self) == (Kurve { bounds: final(self).bounds, ..*old(self) }),
    {
        let center = Point {
            x: size_x * SETUP_KURVE_CENTER_X_PCT / 100,
            y: size_y * SETUP_KURVE_CENTER_Y_PCT / 100,
        };
        proof {
            assert(0 <= size_x * SETUP_KURVE_CENTER_X_PCT <= 100_000_000
                && 0 <= size_y * SETUP_KURVE_CENTER_Y_PCT <= 100_000_000
                && size_x * SIZE_SMALL_X_PCT >= 200 && size_y * SIZE_SMALL_Y_PCT >= 200)
                by (nonlinear_arith)
                requires
                    100 <= size_x <= 1_000_000,
                    100 <= size_y <= 1_000_000,
            ;
        }
        self.bounds = ArenaBounds::new(center, size_x, size_y, SIZE_SMALL_X_PCT, SIZE_SMALL_Y_PCT);
    }

    /// The full play rectangle, centred on the viewport.
    pub fn set_running_bounds(&mut self, size_x: i64, size_y: i64)
        requires
            100 <= size_x <= 1_000_000,
            100 <= size_y <= 1_000_000,
        ensures
            final(self).bounds == running_bounds_for(size_x as int, size_y as int),
            final(self).bounds.wf(),
            *final(self) == (Kurve { bounds: final(self).bounds, ..*old(self) }),
    {
        proof {
            assert(size_x * SIZE_SMALL_X_PCT >= 200 && size_y * SIZE_SMALL_Y_PCT >= 200)
                by (nonlinear_arith)
                requires
                    100 <= size_x <= 1_000_000,
                    100 <= size_y <= 1_000_000,
            ;
        }
        self.bounds = ArenaBounds::new_center(size_x, size_y, SIZE_SMALL_X_PCT, SIZE_SMALL_Y_PCT);
    }

    /// Adds a player and their curve to the end of the roster arrays.
    fn add_player(&mut self, player: Player, curve: Curve)
        ensures
            final(self).players@ == old(self).players@.push(player),
            final(self).curves@ == old(self).curves@.push(curve),
            *final(self) == (Kurve {
                players: final(self).players,
                curves: final(self).curves,
                ..*old(self)
            }),
    {
        self.players.push(player);
        self.curves.push(curve);
    }

    /// The roster slot of the selected menu row. Must only be called
    /// when the selected item is a player config row — anything else is
    /// a caller bug in menu bookkeeping, excluded by contract.
    pub fn extract_cfg_player_curve(&self) -> (id: usize)
        requires
            self.wf(),
            self.menu.items@[self.menu.selected as int] is PlayerCurveConfig,
        ensures
            id == self.menu.selected,
            id < self.players@.len(),
            self.menu.items@[id as int] matches KurveMenuItem::PlayerCurveConfig(c) && c.id == id,
    {
        let id = match &self.menu.items[self.menu.selected] {
            KurveMenuItem::PlayerCurveConfig(c) => c.id,
            _ => unreached(),
        };
        proof {
            let n = self.players@.len() as int;
            if self.menu.selected >= n {
                assert(self.menu.selected == n || self.menu.selected == n + 1);
                assert(!(self.menu.items@[self.menu.selected as int] is PlayerCurveConfig));
            }
        }
        id
    }

    /// Resets every curve for a fresh round: random position and heading
    /// inside the current bounds, cleared trail, restored defaults.
    pub fn reset_curves(&mut self)
        requires
            old(self).wf(),
        ensures
            final(self).curves@.len() == old(self).curves@.len(),
            forall|i: int|
                0 <= i < old(self).curves@.len() ==> curve_reset_rel(
                    #[trigger] old(self).curves@[i],
                    final(self).curves@[i],
                    old(self).bounds,
                ),
            *final(self) == (Kurve { curves: final(self).curves, ..*old(self) }),
            final(self).wf(),
    {
        let n = self.curves.len();
        let mut i: usize = 0;
        while i < n
            invariant
                0 <= i <= n,
                n == self.curves@.len(),
                n == old(self).curves@.len(),
                self.bounds == old(self).bounds,
                self.bounds.wf(),
                forall|k: int| i <= k < n ==> self.curves@[k] == old(self).curves@[k],
                forall|k: int|
                    0 <= k < i ==> curve_reset_rel(
                        #[trigger] old(self).curves@[k],
                        self.curves@[k],
                        old(self).bounds,
                    ),
                self.players == old(self).players,
                self.state == old(self).state,
                self.powers == old(self).powers,
                self.menu == old(self).menu,
            decreases n - i,
        {
            let position = self.bounds.random_pos();
            let rotation = crate::rng::rand_i64_range(0, TAU_MICRORAD);
            let c = &self.curves[i];
            let fresh = Curve {
                player_id: c.player_id,
                position,
                rotation,
                velocity: DEFAULT_VELOCITY,
                rotation_speed: DEFAULT_ROTATION,
                girth: Girth::Normal,
                move_keys: c.move_keys,
                trail_fuse: Curve::new_trail_countdown(),
                trail_ts: c.trail_ts,
                trail_active: true,
                lines: Vec::new(),
                alive: true,
                color: c.color,
            };
            self.curves.set(i, fresh);
            i = i + 1;
        }
        proof {
            assert forall|k: int| 0 <= k < self.curves@.len() implies (#[trigger] self.curves@[k]).wf()
                && self.curves@[k].player_id == k by {
                assert(curve_reset_rel(old(self).curves@[k], self.curves@[k], old(self).bounds));
            }
        }
    }

    /// Win detection: scans the liveness flags after this tick's
    /// eliminations have been applied. Exactly one curve alive names a
    /// winner; zero or several alive names none.
    pub fn check_winner(&self) -> (r: Option<usize>)
        ensures
            (r is Some) <==> count_alive(self.curves@) == 1,
            forall|i: int|
                0 <= i < self.curves@.len() && (#[trigger] self.curves@[i]).alive && count_alive(
                    self.curves@,
                ) == 1 ==> r == Some(self.curves@[i].player_id),
    {
        let n = self.curves.len();
        let mut alive_cnt: usize = 0;
        let mut widx: usize = 0;
        let mut i: usize = 0;
        while i < n
            invariant
                0 <= i <= n,
                n == self.curves@.len(),
                alive_cnt == count_alive(self.curves@.take(i as int)),
                alive_cnt <= i,
                alive_cnt == 1 ==> widx < i && self.curves@[widx as int].alive && (forall|k: int|
                    0 <= k < i && k != widx ==> !(#[trigger] self.curves@[k]).alive),
                alive_cnt == 0 ==> (forall|k: int| 0 <= k < i ==> !(#[trigger] self.curves@[k]).alive),
            decreases n - i,
        {
            proof {
                assert(self.curves@.take(i as int + 1).drop_last() =~= self.curves@.take(i as int));
                assert(self.curves@.take(i as int + 1).last() == self.curves@[i as int]);
            }
            if self.curves[i].alive {
                if alive_cnt == 0 {
                    widx = i;
                }
                alive_cnt = alive_cnt + 1;
            }
            i = i + 1;
        }
        proof {
            assert(self.curves@.take(n as int) =~= self.curves@);
        }
        if alive_cnt == 1 {
            Some(self.curves[widx].player_id)
        } else {
            None
        }
    }
}


/// `p` lies inside the square of half-side [`POWERMOD_HALF_SIZE`]
/// around `c` (boundary included).
pub open spec fn in_square(p: Point, c: Point) -> bool {
    &&& c.x - POWERMOD_HALF_SIZE <= p.x <= c.x + POWERMOD_HALF_SIZE
    &&& c.y - POWERMOD_HALF_SIZE <= p.y <= c.y + POWERMOD_HALF_SIZE
}

/// Curve `i`'s probe box touches the pickup's square bounds.
pub open spec fn touches_pickup(
    curves: Seq<Curve>,
    dt: int,
    inputs: Seq<CurveInput>,
    i: int,
    pm: PowerMod,
) -> bool {
    exists|a: int|
        0 <= a < 9 && in_square(#[trigger] probe_bbox(curves[i], dt, inputs[i])[a], pm.point)
}

/// Some living curve touches the pickup this tick. Dead curves collect
/// nothing.
pub open spec fn pickup_collected(
    curves: Seq<Curve>,
    dt: int,
    inputs: Seq<CurveInput>,
    pm: PowerMod,
) -> bool {
    exists|i: int|
        0 <= i < curves.len() && curves[i].alive && #[trigger] touches_pickup(
            curves,
            dt,
            inputs,
            i,
            pm,
        )
}

/// The smallest index at or after `i` of a living curve touching the
/// pickup, or the curve count when none does.
pub open spec fn first_toucher_from(
    curves: Seq<Curve>,
    dt: int,
    inputs: Seq<CurveInput>,
    pm: PowerMod,
    i: int,
) -> int
    recommends
        0 <= i <= curves.len(),
    decreases curves.len() - i,
{
    if i >= curves.len() {
        curves.len() as int
    } else if curves[i].alive && touches_pickup(curves, dt, inputs, i, pm) {
        i
    } else {
        first_toucher_from(curves, dt, inputs, pm, i + 1)
    }
}

/// The spawned pickups that survive this tick: exactly those no living
/// curve touches.
pub open spec fn uncollected(
    curves: Seq<Curve>,
    dt: int,
    inputs: Seq<CurveInput>,
    pms: Seq<(u64, PowerMod)>,
) -> Seq<(u64, PowerMod)>
    decreases pms.len(),
{
    if pms.len() == 0 {
        pms
    } else {
        let rest = uncollected(curves, dt, inputs, pms.drop_last());
        if pickup_collected(curves, dt, inputs, pms.last().1) {
            rest
        } else {
            rest.push(pms.last())
        }
    }
}

/// The collections this tick, one entry per collected pickup in spawn
/// order: the collecting curve (the first living toucher), the pickup's
/// id and its kind.
pub open spec fn collected_entries(
    curves: Seq<Curve>,
    dt: int,
    inputs: Seq<CurveInput>,
    pms: Seq<(u64, PowerMod)>,
) -> Seq<(usize, u64, PowerModifier)>
    decreases pms.len(),
{
    if pms.len() == 0 {
        Seq::empty()
    } else {
        let rest = collected_entries(curves, dt, inputs, pms.drop_last());
        if pickup_collected(curves, dt, inputs, pms.last().1) {
            rest.push(
                (
                    first_toucher_from(curves, dt, inputs, pms.last().1, 0) as usize,
                    pms.last().0,
                    pms.last().1.ty,
                ),
            )
        } else {
            rest
        }
    }
}

/// Every surviving pickup was already spawned: [`uncollected`] only
/// filters, so ids stay strictly increasing and bounded.
pub proof fn lemma_uncollected_membership(
    curves: Seq<Curve>,
    dt: int,
    inputs: Seq<CurveInput>,
    pms: Seq<(u64, PowerMod)>,
)
    ensures
        forall|k: int|
            0 <= k < uncollected(curves, dt, inputs, pms).len() ==> exists|j: int|
                0 <= j < pms.len() && #[trigger] uncollected(curves, dt, inputs, pms)[k] == pms[j],
        forall|k1: int, k2: int|
            0 <= k1 < k2 < uncollected(curves, dt, inputs, pms).len() ==> (
            #[trigger] uncollected(curves, dt, inputs, pms)[k1]).0 < (
            #[trigger] uncollected(curves, dt, inputs, pms)[k2]).0 || !pairwise_increasing(pms),
    decreases pms.len(),
{
    if pms.len() == 0 {
    } else {
        lemma_uncollected_membership(curves, dt, inputs, pms.drop_last());
        let rest = uncollected(curves, dt, inputs, pms.drop_last());
        assert forall|k: int|
            0 <= k < uncollected(curves, dt, inputs, pms).len() implies exists|j: int|
            0 <= j < pms.len() && #[trigger] uncollected(curves, dt, inputs, pms)[k] == pms[j] by {
            if k < rest.len() {
                let j = choose|j: int|
                    0 <= j < pms.drop_last().len() && rest[k] == pms.drop_last()[j];
                assert(pms.drop_last()[j] == pms[j]);
                assert(uncollected(curves, dt, inputs, pms)[k] == pms[j]);
            } else {
                assert(uncollected(curves, dt, inputs, pms)[k] == pms[pms.len() - 1]);
            }
        }
        if pairwise_increasing(pms) {
            assert(pairwise_increasing(pms.drop_last())) by {
                assert(forall|i: int, j: int|
                    0 <= i < j < pms.drop_last().len() ==> (#[trigger] pms.drop_last()[i]).0 < (
                    #[trigger] pms.drop_last()[j]).0);
            }
            assert forall|k1: int, k2: int|
                0 <= k1 < k2 < uncollected(curves, dt, inputs, pms).len() implies (
            #[trigger] uncollected(curves, dt, inputs, pms)[k1]).0 < (
            #[trigger] uncollected(curves, dt, inputs, pms)[k2]).0 by {
                let u = uncollected(curves, dt, inputs, pms);
                if k2 < rest.len() {
                } else if k2 == rest.len() && u.len() > rest.len() {
                    let j1 = choose|j: int|
                        0 <= j < pms.drop_last().len() && rest[k1] == pms.drop_last()[j];
                    assert(pms.drop_last()[j1] == pms[j1]);
                    assert(u[k1].0 == pms[j1].0);
                    assert(u[k2] == pms[pms.len() - 1]);
                    assert(pms[j1].0 < pms[pms.len() - 1].0);
                }
            }
        }
    }
}

/// Ids strictly increase along the sequence of spawned pickups.
pub open spec fn pairwise_increasing(pms: Seq<(u64, PowerMod)>) -> bool {
    forall|i: int, j: int| 0 <= i < j < pms.len() ==> (#[trigger] pms[i]).0 < (#[trigger] pms[j]).0
}

/// Whether a living curve `i` touches the pickup, read off the probe box.
fn touches_one(
    curves: &Vec<Curve>,
    dt_ms: u64,
    inputs: &Vec<CurveInput>,
    i: usize,
    pm: &PowerMod,
) -> (b: bool)
    requires
        inputs@.len() == curves@.len(),
        i < curves@.len(),
        forall|q: int| 0 <= q < curves@.len() ==> (#[trigger] curves@[q]).wf(),
        forall|q: int| 0 <= q < inputs@.len() ==> (#[trigger] inputs@[q]).valid(),
        dt_ms <= MAX_TICK_MS,
        pm.point.in_range(POS_LIMIT as int),
    ensures
        b == (curves@[i as int].alive && touches_pickup(
            curves@,
            dt_ms as int,
            inputs@,
            i as int,
            *pm,
        )),
{
    let c = &curves[i];
    if !c.alive {
        return false;
    }
    let inp = inputs[i];
    let np = c.next_pos(dt_ms, inp.dir_x, inp.dir_y);
    proof {
        crate::curve::lemma_displacement_bound(c.velocity as int, dt_ms as int, inp.dir_x as int);
        crate::curve::lemma_displacement_bound(c.velocity as int, dt_ms as int, inp.dir_y as int);
        assert(np == probe_point(curves@[i as int], dt_ms as int, inputs@[i as int]));
    }
    let bb = BoundingBox::new(np, c.girth.radius());
    proof {
        assert(bb.0@ =~= probe_bbox(curves@[i as int], dt_ms as int, inputs@[i as int]));
    }
    let mut a: usize = 0;
    while a < 9
        invariant
            0 <= a <= 9,
            i < curves@.len(),
            inputs@.len() == curves@.len(),
            curves@[i as int].alive,
            bb.0@ == probe_bbox(curves@[i as int], dt_ms as int, inputs@[i as int]),
            pm.point.in_range(POS_LIMIT as int),
            forall|q: int|
                0 <= q < a ==> !in_square(
                    #[trigger] probe_bbox(curves@[i as int], dt_ms as int, inputs@[i as int])[q],
                    pm.point,
                ),
        decreases 9 - a,
    {
        let p = bb.0[a];
        if p.x >= pm.point.x - POWERMOD_HALF_SIZE && p.x <= pm.point.x + POWERMOD_HALF_SIZE && p.y
            >= pm.point.y - POWERMOD_HALF_SIZE && p.y <= pm.point.y + POWERMOD_HALF_SIZE {
            proof {
                assert(in_square(
                    probe_bbox(curves@[i as int], dt_ms as int, inputs@[i as int])[a as int],
                    pm.point,
                ));
            }
            return true;
        }
        a = a + 1;
    }
    proof {
        assert(!touches_pickup(curves@, dt_ms as int, inputs@, i as int, *pm));
    }
    false
}

/// The first living curve touching the pickup, if any: the collector.
fn find_first_toucher(
    curves: &Vec<Curve>,
    dt_ms: u64,
    inputs: &Vec<CurveInput>,
    pm: &PowerMod,
) -> (r: Option<usize>)
    requires
        inputs@.len() == curves@.len(),
        forall|q: int| 0 <= q < curves@.len() ==> (#[trigger] curves@[q]).wf(),
        forall|q: int| 0 <= q < inputs@.len() ==> (#[trigger] inputs@[q]).valid(),
        dt_ms <= MAX_TICK_MS,
        pm.point.in_range(POS_LIMIT as int),
    ensures
        (r is Some) == pickup_collected(curves@, dt_ms as int, inputs@, *pm),
        r matches Some(i) ==> i == first_toucher_from(curves@, dt_ms as int, inputs@, *pm, 0)
            && i < curves@.len(),
{
    let n = curves.len();
    let mut i: usize = 0;
    while i < n
        invariant
            0 <= i <= n,
            n == curves@.len(),
            inputs@.len() == curves@.len(),
            forall|q: int| 0 <= q < curves@.len() ==> (#[trigger] curves@[q]).wf(),
            forall|q: int| 0 <= q < inputs@.len() ==> (#[trigger] inputs@[q]).valid(),
            dt_ms <= MAX_TICK_MS,
            pm.point.in_range(POS_LIMIT as int),
            forall|q: int|
                0 <= q < i ==> !(curves@[q].alive && #[trigger] touches_pickup(
                    curves@,
                    dt_ms as int,
                    inputs@,
                    q,
                    *pm,
                )),
        decreases n - i,
    {
        if touches_one(curves, dt_ms, inputs, i, pm) {
            proof {
                lemma_first_toucher_prefix(curves@, dt_ms as int, inputs@, *pm, i as int);
            }
            return Some(i);
        }
        i = i + 1;
    }
    proof {
        assert(!pickup_collected(curves@, dt_ms as int, inputs@, *pm));
    }
    None
}

/// While no living curve before `i` touches the pickup, the search from
/// the start lands wherever the search from `i` lands.
pub proof fn lemma_first_toucher_prefix(
    curves: Seq<Curve>,
    dt: int,
    inputs: Seq<CurveInput>,
    pm: PowerMod,
    i: int,
)
    requires
        0 <= i <= curves.len(),
        forall|q: int|
            0 <= q < i ==> !(curves[q].alive && #[trigger] touches_pickup(
                curves,
                dt,
                inputs,
                q,
                pm,
            )),
    ensures
        first_toucher_from(curves, dt, inputs, pm, 0) == first_toucher_from(
            curves,
            dt,
            inputs,
            pm,
            i,
        ),
    decreases i,
{
    if i > 0 {
        lemma_first_toucher_prefix(curves, dt, inputs, pm, i - 1);
        assert(first_toucher_from(curves, dt, inputs, pm, i - 1) == first_toucher_from(
            curves,
            dt,
            inputs,
            pm,
            i,
        ));
    }
}


/// The timed effect has run its fixed duration out.
pub open spec fn timeout_expired(t: PowerTimeout, now: int) -> bool {
    now - t.started >= POWERMOD_DURATION
}

/// The timeouts that survive this tick, in order.
pub open spec fn kept_timeouts(ts: Seq<PowerTimeout>, now: int) -> Seq<PowerTimeout>
    decreases ts.len(),
{
    if ts.len() == 0 {
        ts
    } else {
        let rest = kept_timeouts(ts.drop_last(), now);
        if timeout_expired(ts.last(), now) {
            rest
        } else {
            rest.push(ts.last())
        }
    }
}

/// How many timeouts in the sequence expire this tick for curve `c`.
pub open spec fn expired_count_for(ts: Seq<PowerTimeout>, now: int, c: int) -> int
    decreases ts.len(),
{
    if ts.len() == 0 {
        0
    } else {
        expired_count_for(ts.drop_last(), now, c) + if timeout_expired(ts.last(), now)
            && ts.last().curve == c {
            1int
        } else {
            0int
        }
    }
}

/// Event counts are never negative.
pub proof fn lemma_entry_count_nonneg(es: Seq<(usize, u64, PowerModifier)>, c: int)
    ensures
        entry_count_for(es, c) >= 0,
    decreases es.len(),
{
    if es.len() > 0 {
        lemma_entry_count_nonneg(es.drop_last(), c);
    }
}

/// Expiry counts are never negative.
pub proof fn lemma_expired_count_nonneg(ts: Seq<PowerTimeout>, now: int, c: int)
    ensures
        expired_count_for(ts, now, c) >= 0,
    decreases ts.len(),
{
    if ts.len() > 0 {
        lemma_expired_count_nonneg(ts.drop_last(), now, c);
    }
}

/// How many collection entries name curve `c`.
pub open spec fn entry_count_for(es: Seq<(usize, u64, PowerModifier)>, c: int) -> int
    decreases es.len(),
{
    if es.len() == 0 {
        0
    } else {
        entry_count_for(es.drop_last(), c) + if es.last().0 == c {
            1int
        } else {
            0int
        }
    }
}

/// A timed effect only changes the attribute its kind names: position,
/// liveness, trail history and identity are untouched.
pub open spec fn effect_frame(before: Curve, after: Curve) -> bool {
    &&& after.player_id == before.player_id
    &&& after.position == before.position
    &&& after.rotation == before.rotation
    &&& after.alive == before.alive
    &&& after.lines == before.lines
    &&& after.move_keys == before.move_keys
    &&& after.color == before.color
}

/// The search either finds a living toucher or exhausts the curves.
pub proof fn lemma_first_toucher_bound(
    curves: Seq<Curve>,
    dt: int,
    inputs: Seq<CurveInput>,
    pm: PowerMod,
    i: int,
)
    requires
        0 <= i <= curves.len(),
    ensures
        i <= first_toucher_from(curves, dt, inputs, pm, i) <= curves.len(),
        first_toucher_from(curves, dt, inputs, pm, i) < curves.len() ==> {
            let f = first_toucher_from(curves, dt, inputs, pm, i);
            curves[f].alive && touches_pickup(curves, dt, inputs, f, pm)
        },
        first_toucher_from(curves, dt, inputs, pm, i) == curves.len() ==> forall|q: int|
            i <= q < curves.len() ==> !(curves[q].alive && #[trigger] touches_pickup(
                curves,
                dt,
                inputs,
                q,
                pm,
            )),
    decreases curves.len() - i,
{
    if i < curves.len() {
        lemma_first_toucher_bound(curves, dt, inputs, pm, i + 1);
    }
}

/// Every collection entry names a real curve, alive at tick start.
pub proof fn lemma_entries_valid(
    curves: Seq<Curve>,
    dt: int,
    inputs: Seq<CurveInput>,
    pms: Seq<(u64, PowerMod)>,
)
    ensures
        forall|k: int|
            0 <= k < collected_entries(curves, dt, inputs, pms).len() ==> (
            #[trigger] collected_entries(curves, dt, inputs, pms)[k]).0 < curves.len(),
    decreases pms.len(),
{
    if pms.len() > 0 {
        lemma_entries_valid(curves, dt, inputs, pms.drop_last());
        let rest = collected_entries(curves, dt, inputs, pms.drop_last());
        let es = collected_entries(curves, dt, inputs, pms);
        if pickup_collected(curves, dt, inputs, pms.last().1) {
            lemma_first_toucher_bound(curves, dt, inputs, pms.last().1, 0);
            let f = first_toucher_from(curves, dt, inputs, pms.last().1, 0);
            if f == curves.len() {
                let w = choose|i: int|
                    0 <= i < curves.len() && curves[i].alive && #[trigger] touches_pickup(
                        curves,
                        dt,
                        inputs,
                        i,
                        pms.last().1,
                    );
                assert(!(curves[w].alive && touches_pickup(curves, dt, inputs, w, pms.last().1)));
                assert(false);
            }
            assert forall|k: int| 0 <= k < es.len() implies (#[trigger] es[k]).0 < curves.len() by {
                if k < rest.len() {
                    assert(es[k] == rest[k]);
                } else {
                    assert(es[k].0 == f as usize);
                }
            }
        } else {
            assert(es == rest);
        }
    }
}

/// One read-only pass over the spawned pickups against the tick-start
/// curves: which pickups survive and which are collected, and by whom.
fn split_pickups(
    curves: &Vec<Curve>,
    dt_ms: u64,
    inputs: &Vec<CurveInput>,
    pms: &Vec<(u64, PowerMod)>,
) -> (r: (Vec<(u64, PowerMod)>, Vec<(usize, u64, PowerModifier)>))
    requires
        inputs@.len() == curves@.len(),
        forall|q: int| 0 <= q < curves@.len() ==> (#[trigger] curves@[q]).wf(),
        forall|q: int| 0 <= q < inputs@.len() ==> (#[trigger] inputs@[q]).valid(),
        dt_ms <= MAX_TICK_MS,
        forall|q: int|
            0 <= q < pms@.len() ==> (#[trigger] pms@[q]).1.point.in_range(POS_LIMIT as int),
    ensures
        r.0@ == uncollected(curves@, dt_ms as int, inputs@, pms@),
        r.1@ == collected_entries(curves@, dt_ms as int, inputs@, pms@),
{
    let n = pms.len();
    let mut kept: Vec<(u64, PowerMod)> = Vec::new();
    let mut entries: Vec<(usize, u64, PowerModifier)> = Vec::new();
    let mut i: usize = 0;
    proof {
        assert(pms@.take(0) =~= Seq::<(u64, PowerMod)>::empty());
    }
    while i < n
        invariant
            0 <= i <= n,
            n == pms@.len(),
            inputs@.len() == curves@.len(),
            forall|q: int| 0 <= q < curves@.len() ==> (#[trigger] curves@[q]).wf(),
            forall|q: int| 0 <= q < inputs@.len() ==> (#[trigger] inputs@[q]).valid(),
            dt_ms <= MAX_TICK_MS,
            forall|q: int|
                0 <= q < pms@.len() ==> (#[trigger] pms@[q]).1.point.in_range(POS_LIMIT as int),
            kept@ == uncollected(curves@, dt_ms as int, inputs@, pms@.take(i as int)),
            entries@ == collected_entries(curves@, dt_ms as int, inputs@, pms@.take(i as int)),
        decreases n - i,
    {
        proof {
            assert(pms@.take(i as int + 1).drop_last() =~= pms@.take(i as int));
            assert(pms@.take(i as int + 1).last() == pms@[i as int]);
        }
        let entry = pms[i];
        let id = entry.0;
        let pm = entry.1;
        match find_first_toucher(curves, dt_ms, inputs, &pm) {
            Some(c) => {
                entries.push((c, id, pm.ty));
            },
            None => {
                kept.push((id, pm));
            },
        }
        i = i + 1;
    }
    proof {
        assert(pms@.take(n as int) =~= pms@);
    }
    (kept, entries)
}

/// A placeholder entity used while a curve is temporarily lifted out of
/// the array for in-place mutation.
fn dummy_curve() -> (c: Curve)
    ensures
        c.wf(),
{
    Curve {
        player_id: 0,
        position: Point { x: 0, y: 0 },
        rotation: 0,
        velocity: 0,
        rotation_speed: 0,
        girth: Girth::Normal,
        move_keys: MoveKeys { ccw: 0, cw: 0 },
        trail_fuse: 0,
        trail_ts: 0,
        trail_active: true,
        lines: Vec::new(),
        alive: false,
        color: 0,
    }
}


impl Kurve {
    /// Applies this tick's pickup collections, already detected against
    /// the tick-start state: the spawned set is replaced by the
    /// uncollected remainder, each collecting curve's attribute is
    /// mutated per the kind, and exactly one timeout is recorded per
    /// collection.
    fn apply_pickup_entries(
        &mut self,
        kept: Vec<(u64, PowerMod)>,
        entries: &Vec<(usize, u64, PowerModifier)>,
        now: u64,
    )
        requires
            old(self).wf(),
            pairwise_increasing(kept@),
            forall|q: int| 0 <= q < kept@.len() ==> (#[trigger] kept@[q]).0 < old(self).powers.last_id,
            forall|q: int|
                0 <= q < kept@.len() ==> (#[trigger] kept@[q]).1.point.in_range(POS_LIMIT as int),
            forall|q: int| 0 <= q < entries@.len() ==> (#[trigger] entries@[q]).0 < old(self).curves@.len(),
        ensures
            final(self).wf(),
            final(self).curves@.len() == old(self).curves@.len(),
            final(self).powers.powermods@ == kept@,
            ({
                let es = entries@;
                &&& final(self).powers.power_timeouts@.len() == old(self).powers.power_timeouts@.len() + es.len()
                &&& forall|k: int|
                    0 <= k < old(self).powers.power_timeouts@.len() ==> final(self).powers.power_timeouts@[k] == old(self).powers.power_timeouts@[k]
                &&& forall|k: int|
                    0 <= k < es.len() ==> final(self).powers.power_timeouts@[old(self).powers.power_timeouts@.len() + k] == (PowerTimeout {
                        curve: es[k].0,
                        started: now,
                        ty: es[k].2,
                    })
                &&& forall|c: int|
                    0 <= c < old(self).curves@.len() ==> effect_frame(
                        #[trigger] old(self).curves@[c],
                        final(self).curves@[c],
                    )
                &&& forall|c: int|
                    0 <= c < old(self).curves@.len() && entry_count_for(es, c) == 0 ==> final(self).curves@[c] == old(self).curves@[c]
                &&& forall|c: int|
                    0 <= c < old(self).curves@.len() && entry_count_for(es, c) == 1 ==> (exists|
                        k: int,
                    |
                        0 <= k < es.len() && (#[trigger] es[k]).0 == c && final(self).curves@[c]
                            == spec_apply(es[k].2, old(self).curves@[c], now as int))
            }),
            final(self).powers.power_fuse == old(self).powers.power_fuse,
            final(self).powers.last_powermod == old(self).powers.last_powermod,
            final(self).powers.last_id == old(self).powers.last_id,
            final(self).players == old(self).players,
            final(self).state == old(self).state,
            final(self).bounds == old(self).bounds,
            final(self).menu == old(self).menu,
            forall|c: int|
                0 <= c < old(self).curves@.len() ==> (#[trigger] final(self).curves@[c]).trail_ts
                    <= now || final(self).curves@[c].trail_ts == old(self).curves@[c].trail_ts,
    {
        self.powers.powermods = kept;
        let ghost es = entries@;
        let m = entries.len();
        let mut k: usize = 0;
        proof {
            assert(es.take(0) =~= Seq::<(usize, u64, PowerModifier)>::empty());
        }
        while k < m
            invariant
                0 <= k <= m,
                m == es.len(),
                entries@ == es,
                now <= u64::MAX,
                self.curves@.len() == old(self).curves@.len(),
                forall|q: int| 0 <= q < es.len() ==> (#[trigger] es[q]).0 < self.curves@.len(),
                forall|q: int| 0 <= q < self.curves@.len() ==> (#[trigger] self.curves@[q]).wf(),
                self.powers.power_timeouts@.len() == old(self).powers.power_timeouts@.len() + k,
                forall|q: int|
                    0 <= q < old(self).powers.power_timeouts@.len() ==> self.powers.power_timeouts@[q]
                        == old(self).powers.power_timeouts@[q],
                forall|q: int|
                    0 <= q < k ==> self.powers.power_timeouts@[old(self).powers.power_timeouts@.len() + q] == (PowerTimeout {
                        curve: es[q].0,
                        started: now,
                        ty: es[q].2,
                    }),
                forall|c: int|
                    0 <= c < old(self).curves@.len() ==> effect_frame(
                        #[trigger] old(self).curves@[c],
                        self.curves@[c],
                    ),
                forall|c: int|
                    0 <= c < old(self).curves@.len() && entry_count_for(es.take(k as int), c) == 0
                        ==> self.curves@[c] == old(self).curves@[c],
                forall|c: int|
                    0 <= c < old(self).curves@.len() && entry_count_for(es.take(k as int), c) == 1
                        ==> (exists|q: int|
                        0 <= q < es.len() && (#[trigger] es[q]).0 == c && self.curves@[c]
                            == spec_apply(es[q].2, old(self).curves@[c], now as int)),
                forall|c: int|
                    0 <= c < old(self).curves@.len() ==> (#[trigger] self.curves@[c]).trail_ts
                        <= now || self.curves@[c].trail_ts == old(self).curves@[c].trail_ts,
                self.powers.powermods@ == kept@,
                self.powers.power_fuse == old(self).powers.power_fuse,
                self.powers.last_powermod == old(self).powers.last_powermod,
                self.powers.last_id == old(self).powers.last_id,
                self.powers.wf(),
                self.players == old(self).players,
                self.state == old(self).state,
                self.bounds == old(self).bounds,
                self.menu == old(self).menu,
            decreases m - k,
        {
            proof {
                assert(es.take(k as int + 1).drop_last() =~= es.take(k as int));
                assert(es.take(k as int + 1).last() == es[k as int]);
            }
            let e = entries[k];
            let ci = e.0;
            let kind = e.2;
            let ghost before = self.curves@[ci as int];
            let mut c = dummy_curve();
            self.curves.set_and_swap(ci, &mut c);
            kind.apply(&mut c, now);
            self.curves.set_and_swap(ci, &mut c);
            self.powers.add_timeout(ci, kind, now);
            proof {
                assert(self.curves@[ci as int] == spec_apply(kind, before, now as int));
                let esk1 = es.take(k as int + 1);
                let esk = es.take(k as int);
                assert(esk1.drop_last() =~= esk);
                assert forall|c2: int|
                    0 <= c2 < old(self).curves@.len() && #[trigger] entry_count_for(esk1, c2)
                        == 0 implies self.curves@[c2] == old(self).curves@[c2] by {
                    assert(entry_count_for(esk1, c2) == entry_count_for(esk, c2) + if es[k as int].0
                        == c2 {
                        1int
                    } else {
                        0int
                    });
                    lemma_entry_count_nonneg(esk, c2);
                    assert(c2 != ci as int);
                }
                assert forall|c2: int|
                    0 <= c2 < old(self).curves@.len() && #[trigger] entry_count_for(esk1, c2)
                        == 1 implies (exists|q: int|
                    0 <= q < es.len() && (#[trigger] es[q]).0 == c2 && self.curves@[c2]
                        == spec_apply(es[q].2, old(self).curves@[c2], now as int)) by {
                    assert(entry_count_for(esk1, c2) == entry_count_for(esk, c2) + if es[k as int].0
                        == c2 {
                        1int
                    } else {
                        0int
                    });
                    if c2 == ci as int && entry_count_for(esk, c2) == 0 {
                        assert(before == old(self).curves@[c2]);
                        assert(es[k as int].0 == c2 && self.curves@[c2] == spec_apply(
                            es[k as int].2,
                            old(self).curves@[c2],
                            now as int,
                        ));
                    } else if c2 != ci as int {
                        assert(entry_count_for(esk, c2) == 1);
                    }
                }
            }
            k = k + 1;
        }
        proof {
            assert(es.take(m as int) =~= es);
            assert forall|i: int| 0 <= i < self.curves@.len() implies (#[trigger] self.curves@[i]).wf()
                && self.curves@[i].player_id == i by {
                assert(effect_frame(old(self).curves@[i], self.curves@[i]));
            }
            assert(self.menu_wf());
            assert forall|a: int| 0 <= a < self.powers.power_timeouts@.len() implies (
                #[trigger] self.powers.power_timeouts@[a]).curve < self.curves@.len() by {
                if a < old(self).powers.power_timeouts@.len() {
                    assert(self.powers.power_timeouts@[a] == old(self).powers.power_timeouts@[a]);
                } else {
                    let q = a - old(self).powers.power_timeouts@.len();
                    assert(self.powers.power_timeouts@[a] == (PowerTimeout {
                        curve: es[q].0,
                        started: now,
                        ty: es[q].2,
                    }));
                }
            }
        }
    }
}


impl Kurve {
    /// Timeout expiry for this tick: every active effect older than the
    /// fixed duration is removed from the timeout set and its mutation
    /// is reversed on the owning curve with the exact inverse.
    fn expire_powermods(&mut self, now: u64)
        requires
            old(self).wf(),
            forall|q: int|
                0 <= q < old(self).powers.power_timeouts@.len() ==> (
                #[trigger] old(self).powers.power_timeouts@[q]).started <= now,
        ensures
            final(self).wf(),
            final(self).curves@.len() == old(self).curves@.len(),
            final(self).powers.power_timeouts@ == kept_timeouts(
                old(self).powers.power_timeouts@,
                now as int,
            ),
            final(self).powers.powermods == old(self).powers.powermods,
            final(self).powers.power_fuse == old(self).powers.power_fuse,
            final(self).powers.last_powermod == old(self).powers.last_powermod,
            final(self).powers.last_id == old(self).powers.last_id,
            final(self).players == old(self).players,
            final(self).state == old(self).state,
            final(self).bounds == old(self).bounds,
            final(self).menu == old(self).menu,
            forall|c: int|
                0 <= c < old(self).curves@.len() ==> effect_frame(
                    #[trigger] old(self).curves@[c],
                    final(self).curves@[c],
                ),
            forall|c: int|
                0 <= c < old(self).curves@.len() && expired_count_for(
                    old(self).powers.power_timeouts@,
                    now as int,
                    c,
                ) == 0 ==> final(self).curves@[c] == old(self).curves@[c],
            forall|c: int|
                0 <= c < old(self).curves@.len() && expired_count_for(
                    old(self).powers.power_timeouts@,
                    now as int,
                    c,
                ) == 1 ==> (exists|k: int|
                    0 <= k < old(self).powers.power_timeouts@.len() && timeout_expired(
                        #[trigger] old(self).powers.power_timeouts@[k],
                        now as int,
                    ) && old(self).powers.power_timeouts@[k].curve == c && final(self).curves@[c]
                        == spec_remove(
                        old(self).powers.power_timeouts@[k].ty,
                        old(self).curves@[c],
                        now as int,
                        final(self).curves@[c].trail_fuse as int,
                    ) && (old(self).powers.power_timeouts@[k].ty is Invulnerability
                        ==> TRAIL_SKIP_MIN <= final(self).curves@[c].trail_fuse < TRAIL_SKIP_MAX)
                        && (!(old(self).powers.power_timeouts@[k].ty is Invulnerability) ==> final(self).curves@[c].trail_fuse == old(self).curves@[c].trail_fuse)),
            forall|c: int|
                0 <= c < old(self).curves@.len() ==> ((#[trigger] final(self).curves@[c]).trail_ts
                    <= now || final(self).curves@[c].trail_ts == old(self).curves@[c].trail_ts),
    {
        let ghost ts0 = self.powers.power_timeouts@;
        let m = self.powers.power_timeouts.len();
        let mut kept: Vec<PowerTimeout> = Vec::new();
        let mut k: usize = 0;
        proof {
            assert(ts0.take(0) =~= Seq::<PowerTimeout>::empty());
        }
        while k < m
            invariant
                0 <= k <= m,
                m == ts0.len(),
                self.powers.power_timeouts@ == ts0,
                now <= u64::MAX,
                self.curves@.len() == old(self).curves@.len(),
                forall|q: int| 0 <= q < ts0.len() ==> (#[trigger] ts0[q]).curve < self.curves@.len(),
                forall|q: int| 0 <= q < ts0.len() ==> (#[trigger] ts0[q]).started <= now,
                forall|q: int| 0 <= q < self.curves@.len() ==> (#[trigger] self.curves@[q]).wf(),
                kept@ == kept_timeouts(ts0.take(k as int), now as int),
                forall|c: int|
                    0 <= c < old(self).curves@.len() ==> effect_frame(
                        #[trigger] old(self).curves@[c],
                        self.curves@[c],
                    ),
                forall|c: int|
                    0 <= c < old(self).curves@.len() && expired_count_for(
                        ts0.take(k as int),
                        now as int,
                        c,
                    ) == 0 ==> self.curves@[c] == old(self).curves@[c],
                forall|c: int|
                    0 <= c < old(self).curves@.len() && expired_count_for(
                        ts0.take(k as int),
                        now as int,
                        c,
                    ) == 1 ==> (exists|q: int|
                        0 <= q < ts0.len() && timeout_expired(#[trigger] ts0[q], now as int)
                            && ts0[q].curve == c && self.curves@[c] == spec_remove(
                            ts0[q].ty,
                            old(self).curves@[c],
                            now as int,
                            self.curves@[c].trail_fuse as int,
                        ) && (ts0[q].ty is Invulnerability ==> TRAIL_SKIP_MIN
                            <= self.curves@[c].trail_fuse < TRAIL_SKIP_MAX) && (!(ts0[q].ty is
                        Invulnerability) ==> self.curves@[c].trail_fuse == old(self).curves@[c].trail_fuse)),
                forall|c: int|
                    0 <= c < old(self).curves@.len() ==> ((#[trigger] self.curves@[c]).trail_ts
                        <= now || self.curves@[c].trail_ts == old(self).curves@[c].trail_ts),
                self.powers == old(self).powers,
                self.players == old(self).players,
                self.state == old(self).state,
                self.bounds == old(self).bounds,
                self.menu == old(self).menu,
            decreases m - k,
        {
            proof {
                assert(ts0.take(k as int + 1).drop_last() =~= ts0.take(k as int));
                assert(ts0.take(k as int + 1).last() == ts0[k as int]);
            }
            let t = self.powers.power_timeouts[k];
            let expired = now - t.started >= POWERMOD_DURATION;
            if expired {
                let ci = t.curve;
                let ghost before = self.curves@[ci as int];
                let mut c = dummy_curve();
                self.curves.set_and_swap(ci, &mut c);
                t.ty.remove(&mut c, now);
                self.curves.set_and_swap(ci, &mut c);
                proof {
                    let tsk1 = ts0.take(k as int + 1);
                    let tsk = ts0.take(k as int);
                    assert(self.curves@[ci as int] == spec_remove(
                        t.ty,
                        before,
                        now as int,
                        self.curves@[ci as int].trail_fuse as int,
                    ));
                    assert forall|c2: int|
                        0 <= c2 < old(self).curves@.len() && #[trigger] expired_count_for(
                            tsk1,
                            now as int,
                            c2,
                        ) == 0 implies self.curves@[c2] == old(self).curves@[c2] by {
                        assert(expired_count_for(tsk1, now as int, c2) == expired_count_for(
                            tsk,
                            now as int,
                            c2,
                        ) + if timeout_expired(ts0[k as int], now as int) && ts0[k as int].curve
                            == c2 {
                            1int
                        } else {
                            0int
                        });
                        lemma_expired_count_nonneg(tsk, now as int, c2);
                        assert(c2 != ci as int);
                    }
                    assert forall|c2: int|
                        0 <= c2 < old(self).curves@.len() && #[trigger] expired_count_for(
                            tsk1,
                            now as int,
                            c2,
                        ) == 1 implies (exists|q: int|
                        0 <= q < ts0.len() && timeout_expired(#[trigger] ts0[q], now as int)
                            && ts0[q].curve == c2 && self.curves@[c2] == spec_remove(
                            ts0[q].ty,
                            old(self).curves@[c2],
                            now as int,
                            self.curves@[c2].trail_fuse as int,
                        ) && (ts0[q].ty is Invulnerability ==> TRAIL_SKIP_MIN
                            <= self.curves@[c2].trail_fuse < TRAIL_SKIP_MAX) && (!(ts0[q].ty is
                        Invulnerability) ==> self.curves@[c2].trail_fuse == old(self).curves@[c2].trail_fuse)) by {
                        assert(expired_count_for(tsk1, now as int, c2) == expired_count_for(
                            tsk,
                            now as int,
                            c2,
                        ) + if timeout_expired(ts0[k as int], now as int) && ts0[k as int].curve
                            == c2 {
                            1int
                        } else {
                            0int
                        });
                        lemma_expired_count_nonneg(tsk, now as int, c2);
                        if c2 == ci as int && expired_count_for(tsk, now as int, c2) == 0 {
                            assert(before == old(self).curves@[c2]);
                            assert(timeout_expired(ts0[k as int], now as int) && ts0[k as int].curve
                                == c2 && self.curves@[c2] == spec_remove(
                                ts0[k as int].ty,
                                old(self).curves@[c2],
                                now as int,
                                self.curves@[c2].trail_fuse as int,
                            ));
                        } else if c2 != ci as int {
                            assert(expired_count_for(tsk, now as int, c2) == 1);
                        }
                    }
                }
            } else {
                kept.push(t);
            }
            k = k + 1;
        }
        proof {
            assert(ts0.take(m as int) =~= ts0);
        }
        self.powers.power_timeouts = kept;
        proof {
            assert forall|i: int| 0 <= i < self.curves@.len() implies (#[trigger] self.curves@[i]).wf()
                && self.curves@[i].player_id == i by {
                assert(effect_frame(old(self).curves@[i], self.curves@[i]));
            }
            assert(self.menu_wf());
            lemma_kept_timeouts_membership(ts0, now as int);
            assert forall|a: int| 0 <= a < self.powers.power_timeouts@.len() implies (
                #[trigger] self.powers.power_timeouts@[a]).curve < self.curves@.len() by {
                let j = choose|j: int|
                    0 <= j < ts0.len() && self.powers.power_timeouts@[a] == ts0[j];
            }
        }
    }
}

/// Every kept timeout was already in the set: expiry only filters.
pub proof fn lemma_kept_timeouts_membership(ts: Seq<PowerTimeout>, now: int)
    ensures
        forall|k: int|
            0 <= k < kept_timeouts(ts, now).len() ==> exists|j: int|
                0 <= j < ts.len() && #[trigger] kept_timeouts(ts, now)[k] == ts[j],
    decreases ts.len(),
{
    if ts.len() > 0 {
        lemma_kept_timeouts_membership(ts.drop_last(), now);
        let rest = kept_timeouts(ts.drop_last(), now);
        assert forall|k: int|
            0 <= k < kept_timeouts(ts, now).len() implies exists|j: int|
            0 <= j < ts.len() && #[trigger] kept_timeouts(ts, now)[k] == ts[j] by {
            if k < rest.len() {
                let j = choose|j: int|
                    0 <= j < ts.drop_last().len() && rest[k] == ts.drop_last()[j];
                assert(ts.drop_last()[j] == ts[j]);
                assert(kept_timeouts(ts, now)[k] == ts[j]);
            } else {
                assert(kept_timeouts(ts, now)[k] == ts[ts.len() - 1]);
            }
        }
    }
}


/// How one curve moves in the movement phase of a tick: the heading
/// turns by the held keys, the trail lifecycle advances and gates this
/// tick's segment, and the move commits along the turned heading.
pub open spec fn moved_rel(before: Curve, after: Curve, inp: CurveInput, dt: int, now: int) -> bool {
    &&& after.player_id == before.player_id
    &&& after.velocity == before.velocity
    &&& after.rotation_speed == before.rotation_speed
    &&& after.girth == before.girth
    &&& after.move_keys == before.move_keys
    &&& after.alive == before.alive
    &&& after.color == before.color
    &&& after.rotation == before.spec_rotated(inp.ccw, inp.cw)
    &&& after.trail_active == before.trail_active_after(now)
    &&& after.trail_ts == (if before.gap_fires(now) || before.reenable_fires(now) {
        now as u64
    } else {
        before.trail_ts
    })
    &&& (!before.reenable_fires(now) ==> after.trail_fuse == before.trail_fuse)
    &&& (before.reenable_fires(now) ==> TRAIL_SKIP_MIN <= after.trail_fuse < TRAIL_SKIP_MAX)
    &&& after.lines@.len() == before.lines@.len() + (if after.trail_active {
        1int
    } else {
        0int
    })
    &&& (forall|q: int| 0 <= q < before.lines@.len() ==> after.lines@[q] == before.lines@[q])
    &&& (after.trail_active ==> trail_segment_rel(before, after.lines@.last(), inp, dt))
    &&& after.position.x == crate::curve::clamp_pos(
        before.position.x + displacement(before.velocity as int, dt, inp.turn_x as int),
    )
    &&& after.position.y == crate::curve::clamp_pos(
        before.position.y + displacement(before.velocity as int, dt, inp.turn_y as int),
    )
}

/// The segment a drawing curve appends this tick: the interpolation from
/// its position to the probed next position along the turned heading, at
/// its current girth.
pub open spec fn trail_segment_rel(before: Curve, l: Line, inp: CurveInput, dt: int) -> bool {
    let target = Point {
        x: (before.position.x + displacement(before.velocity as int, dt, inp.turn_x as int)) as i64,
        y: (before.position.y + displacement(before.velocity as int, dt, inp.turn_y as int)) as i64,
    };
    &&& l.girth == before.girth
    &&& l.points@.len() == crate::point::num_steps(before.position, target)
    &&& (forall|q: int|
        0 <= q < l.points@.len() ==> l.points@[q] == crate::point::interp_point(
            before.position,
            target,
            q,
        ))
    &&& l.points@[0] == before.position
}

/// The timeout entries recorded for a sequence of collections at `now`.
pub open spec fn timeouts_of(es: Seq<(usize, u64, PowerModifier)>, now: int) -> Seq<PowerTimeout> {
    Seq::new(es.len(), |k: int| PowerTimeout { curve: es[k].0, started: now as u64, ty: es[k].2 })
}

/// What this tick's two effect phases — expiry reversal, then pickup
/// application — do to one curve's modifiable attributes, read off the
/// event counts. With no event the attributes are untouched; with a
/// single pickup they are exactly [`spec_apply`] of its kind; with a
/// single expiry they are exactly [`spec_remove`] of its kind. (The
/// velocity clauses speak of surviving curves, since an elimination
/// stops the curve afterwards; the fuse argument of [`spec_remove`] only
/// feeds the trail fuse, which the movement phase may redraw anyway.)
pub open spec fn effects_on_curve(
    c0: Seq<Curve>,
    cf: Seq<Curve>,
    ts: Seq<PowerTimeout>,
    es: Seq<(usize, u64, PowerModifier)>,
    now: int,
    c: int,
) -> bool {
    let ec = expired_count_for(ts, now, c);
    let pc = entry_count_for(es, c);
    &&& (ec == 0 && pc == 0 ==> cf[c].girth == c0[c].girth && cf[c].rotation_speed
        == c0[c].rotation_speed && (cf[c].alive ==> cf[c].velocity == c0[c].velocity))
    &&& (ec == 0 && pc == 1 ==> (exists|k: int|
        0 <= k < es.len() && (#[trigger] es[k]).0 == c && {
            let e = spec_apply(es[k].2, c0[c], now);
            &&& cf[c].girth == e.girth
            &&& cf[c].rotation_speed == e.rotation_speed
            &&& (cf[c].alive ==> cf[c].velocity == e.velocity)
        }))
    &&& (ec == 1 && pc == 0 ==> (exists|k: int|
        0 <= k < ts.len() && timeout_expired(#[trigger] ts[k], now) && ts[k].curve == c && {
            let e = spec_remove(ts[k].ty, c0[c], now, 0);
            &&& cf[c].girth == e.girth
            &&& cf[c].rotation_speed == e.rotation_speed
            &&& (cf[c].alive ==> cf[c].velocity == e.velocity)
        }))
}

/// What one running tick does to the power-up supply and, through it, to
/// the curves, stated against the tick-start curves: at most one pickup
/// spawns (under the next id, inside the arena), every pickup a living
/// curve touches leaves the spawned set, expired timeouts leave the
/// timeout set, exactly one new timeout is recorded per collection in
/// spawn order, and every collection and expiry mutates its curve's
/// attribute per the kind.
pub open spec fn powers_tick_rel(
    pre: PowerSupply,
    post: PowerSupply,
    curves0: Seq<Curve>,
    curves_fin: Seq<Curve>,
    dt: int,
    inputs: Seq<CurveInput>,
    now: int,
    bounds: ArenaBounds,
) -> bool {
    exists|pms_mid: Seq<(u64, PowerMod)>|
        {
            &&& (pms_mid == pre.powermods@ || (pms_mid.len() == pre.powermods@.len() + 1
                && pms_mid.drop_last() == pre.powermods@ && pms_mid.last().0 == pre.last_id
                && bounds.x_min <= pms_mid.last().1.point.x < bounds.x_max && bounds.y_min
                <= pms_mid.last().1.point.y < bounds.y_max))
            &&& post.powermods@ == uncollected(curves0, dt, inputs, pms_mid)
            &&& post.power_timeouts@ == kept_timeouts(pre.power_timeouts@, now) + timeouts_of(
                collected_entries(curves0, dt, inputs, pms_mid),
                now,
            )
            &&& forall|c: int|
                0 <= c < curves0.len() ==> #[trigger] effects_on_curve(
                    curves0,
                    curves_fin,
                    pre.power_timeouts@,
                    collected_entries(curves0, dt, inputs, pms_mid),
                    now,
                    c,
                )
        }
}

/// The elimination outcome of one running tick: a curve survives exactly
/// when it was alive and the pure collision predicate over the
/// tick-start state clears it, and an eliminated curve is stopped.
pub open spec fn running_eliminations(
    c0: Seq<Curve>,
    cf: Seq<Curve>,
    bounds: ArenaBounds,
    dt: int,
    inputs: Seq<CurveInput>,
) -> bool {
    &&& cf.len() == c0.len()
    &&& forall|i: int|
        0 <= i < c0.len() ==> (#[trigger] cf[i]).alive == (c0[i].alive && !curve_collides(
            c0,
            bounds,
            dt,
            inputs,
            i,
        ))
    &&& forall|i: int|
        0 <= i < c0.len() && c0[i].alive && curve_collides(c0, bounds, dt, inputs, i) ==> (
        #[trigger] cf[i]).velocity == 0
}

/// The movement outcome of a running tick that crowned no winner: every
/// curve's position commits along its turned heading at its post-effect
/// velocity, its heading turns by the held keys, and its trail grows by
/// at most this tick's segment.
pub open spec fn running_movement(c0: Seq<Curve>, cf: Seq<Curve>, dt: int, inputs: Seq<CurveInput>) -> bool {
    forall|i: int|
        0 <= i < c0.len() ==> ({
            let fc = #[trigger] cf[i];
            let oc = c0[i];
            let inp = inputs[i];
            &&& fc.position.x == crate::curve::clamp_pos(
                oc.position.x + displacement(fc.velocity as int, dt, inp.turn_x as int),
            )
            &&& fc.position.y == crate::curve::clamp_pos(
                oc.position.y + displacement(fc.velocity as int, dt, inp.turn_y as int),
            )
            &&& fc.rotation == crate::curve::wrap_angle(
                oc.rotation + (if inp.cw {
                    fc.rotation_speed as int
                } else {
                    0int
                }) - (if inp.ccw {
                    fc.rotation_speed as int
                } else {
                    0int
                }),
            )
            &&& oc.lines@.len() <= fc.lines@.len() <= oc.lines@.len() + 1
            &&& (forall|q: int| 0 <= q < oc.lines@.len() ==> fc.lines@[q] == oc.lines@[q])
        })
}

/// The frame of a winner tick: once a winner is crowned, no curve moves,
/// turns or draws this tick.
pub open spec fn curves_frozen(c0: Seq<Curve>, cf: Seq<Curve>) -> bool {
    forall|i: int|
        0 <= i < c0.len() ==> ((#[trigger] cf[i]).position == c0[i].position && cf[i].rotation
            == c0[i].rotation && cf[i].lines == c0[i].lines)
}

impl Kurve {
    /// Applies the scan's verdicts after the read-only scan has finished:
    /// every curve marked collided is eliminated — stopped and flagged
    /// dead — and nothing else changes.
    fn apply_collisions(&mut self, collisions: &Vec<bool>)
        requires
            old(self).wf(),
            collisions@.len() == old(self).curves@.len(),
        ensures
            final(self).wf(),
            final(self).curves@.len() == old(self).curves@.len(),
            forall|i: int|
                0 <= i < old(self).curves@.len() ==> (#[trigger] final(self).curves@[i]).alive == (
                old(self).curves@[i].alive && !collisions@[i]),
            forall|i: int|
                0 <= i < old(self).curves@.len() ==> ((old(self).curves@[i].alive
                    && collisions@[i]) ==> (#[trigger] final(self).curves@[i]).velocity == 0),
            forall|i: int|
                0 <= i < old(self).curves@.len() ==> (!(old(self).curves@[i].alive
                    && collisions@[i]) ==> (#[trigger] final(self).curves@[i]) == old(self).curves@[i]),
            forall|i: int|
                0 <= i < old(self).curves@.len() ==> (#[trigger] final(self).curves@[i])
                    == (Curve {
                    alive: final(self).curves@[i].alive,
                    velocity: final(self).curves@[i].velocity,
                    ..old(self).curves@[i]
                }),
            *final(self) == (Kurve { curves: final(self).curves, ..*old(self) }),
    {
        let n = self.curves.len();
        let mut i: usize = 0;
        while i < n
            invariant
                0 <= i <= n,
                n == self.curves@.len(),
                n == old(self).curves@.len(),
                collisions@.len() == n,
                forall|q: int| 0 <= q < self.curves@.len() ==> (#[trigger] self.curves@[q]).wf(),
                forall|q: int| i <= q < n ==> self.curves@[q] == old(self).curves@[q],
                forall|q: int|
                    0 <= q < i ==> (#[trigger] self.curves@[q]).alive == (old(self).curves@[q].alive
                        && !collisions@[q]),
                forall|q: int|
                    0 <= q < i ==> ((old(self).curves@[q].alive && collisions@[q]) ==> (
                    #[trigger] self.curves@[q]).velocity == 0),
                forall|q: int|
                    0 <= q < i ==> (!(old(self).curves@[q].alive && collisions@[q]) ==> (
                    #[trigger] self.curves@[q]) == old(self).curves@[q]),
                forall|q: int|
                    0 <= q < i ==> (#[trigger] self.curves@[q]) == (Curve {
                        alive: self.curves@[q].alive,
                        velocity: self.curves@[q].velocity,
                        ..old(self).curves@[q]
                    }),
                self.players == old(self).players,
                self.state == old(self).state,
                self.powers == old(self).powers,
                self.menu == old(self).menu,
                self.bounds == old(self).bounds,
            decreases n - i,
        {
            let hit = collisions[i];
            if hit && self.curves[i].alive {
                let mut c = dummy_curve();
                self.curves.set_and_swap(i, &mut c);
                c.velocity = 0;
                c.alive = false;
                self.curves.set_and_swap(i, &mut c);
            }
            proof {
                if !(old(self).curves@[i as int].alive && collisions@[i as int]) {
                    assert(self.curves@[i as int] == old(self).curves@[i as int]);
                }
            }
            i = i + 1;
        }
        proof {
            assert forall|q: int| 0 <= q < self.curves@.len() implies (#[trigger] self.curves@[q]).wf()
                && self.curves@[q].player_id == q by {
                assert(self.curves@[q] == (Curve {
                    alive: self.curves@[q].alive,
                    velocity: self.curves@[q].velocity,
                    ..old(self).curves@[q]
                }));
            }
            assert(self.menu_wf());
        }
    }

    /// The movement phase: every curve turns by its held keys, advances
    /// its trail lifecycle (appending this tick's segment while the
    /// trail is drawn) and commits its move. An eliminated curve has
    /// zero velocity, so it stays where it stopped.
    fn move_curves(&mut self, inputs: &Vec<CurveInput>, dt_ms: u64, now: u64)
        requires
            old(self).wf(),
            inputs@.len() == old(self).curves@.len(),
            forall|q: int| 0 <= q < inputs@.len() ==> (#[trigger] inputs@[q]).valid(),
            dt_ms <= MAX_TICK_MS,
            forall|q: int|
                0 <= q < old(self).curves@.len() ==> (#[trigger] old(self).curves@[q]).trail_ts
                    <= now,
        ensures
            final(self).wf(),
            final(self).curves@.len() == old(self).curves@.len(),
            forall|i: int|
                0 <= i < old(self).curves@.len() ==> moved_rel(
                    #[trigger] old(self).curves@[i],
                    final(self).curves@[i],
                    inputs@[i],
                    dt_ms as int,
                    now as int,
                ),
            forall|i: int|
                0 <= i < old(self).curves@.len() ==> (#[trigger] final(self).curves@[i]).trail_ts
                    <= now,
            *final(self) == (Kurve { curves: final(self).curves, ..*old(self) }),
    {
        let n = self.curves.len();
        let mut i: usize = 0;
        while i < n
            invariant
                0 <= i <= n,
                n == self.curves@.len(),
                n == old(self).curves@.len(),
                inputs@.len() == n,
                forall|q: int| 0 <= q < inputs@.len() ==> (#[trigger] inputs@[q]).valid(),
                dt_ms <= MAX_TICK_MS,
                now <= u64::MAX,
                forall|q: int| 0 <= q < self.curves@.len() ==> (#[trigger] self.curves@[q]).wf(),
                forall|q: int| i <= q < n ==> self.curves@[q] == old(self).curves@[q],
                forall|q: int|
                    i <= q < n ==> (#[trigger] old(self).curves@[q]).trail_ts <= now,
                forall|q: int|
                    0 <= q < i ==> moved_rel(
                        #[trigger] old(self).curves@[q],
                        self.curves@[q],
                        inputs@[q],
                        dt_ms as int,
                        now as int,
                    ),
                forall|q: int|
                    0 <= q < i ==> (#[trigger] self.curves@[q]).trail_ts <= now,
                self.players == old(self).players,
                self.state == old(self).state,
                self.powers == old(self).powers,
                self.menu == old(self).menu,
                self.bounds == old(self).bounds,
            decreases n - i,
        {
            let inp = inputs[i];
            let mut c = dummy_curve();
            self.curves.set_and_swap(i, &mut c);
            c.rotate(inp.ccw, inp.cw);
            c.tick_trail(now, dt_ms, inp.turn_x, inp.turn_y);
            c.mv(dt_ms, inp.turn_x, inp.turn_y);
            self.curves.set_and_swap(i, &mut c);
            proof {
                assert(moved_rel(
                    old(self).curves@[i as int],
                    self.curves@[i as int],
                    inputs@[i as int],
                    dt_ms as int,
                    now as int,
                ));
            }
            i = i + 1;
        }
        proof {
            assert forall|q: int| 0 <= q < self.curves@.len() implies (#[trigger] self.curves@[q]).wf()
                && self.curves@[q].player_id == q by {
                assert(moved_rel(
                    old(self).curves@[q],
                    self.curves@[q],
                    inputs@[q],
                    dt_ms as int,
                    now as int,
                ));
            }
            assert(self.menu_wf());
        }
    }
}


/// Two curve arrays with pointwise equal liveness have the same count.
pub proof fn lemma_count_alive_pointwise(cs1: Seq<Curve>, cs2: Seq<Curve>)
    requires
        cs1.len() == cs2.len(),
        forall|i: int| 0 <= i < cs1.len() ==> cs1[i].alive == cs2[i].alive,
    ensures
        count_alive(cs1) == count_alive(cs2),
    decreases cs1.len(),
{
    if cs1.len() > 0 {
        lemma_count_alive_pointwise(cs1.drop_last(), cs2.drop_last());
    }
}

impl Kurve {
    /// One tick of a running round. In order: the spawn scheduler runs;
    /// the read-only collision and pickup scan probes every curve one
    /// tick ahead against the tick-start state; expired effects are
    /// reversed; collected pickups are applied; the scan's verdicts are
    /// applied all at once; the liveness flags are checked for a winner;
    /// and only if the round goes on does every curve turn, draw and
    /// move.
    ///
    /// Eliminations are exactly [`curve_collides`] over the tick-start
    /// state — a pure function, so the outcome is independent of any
    /// scan order — and an eliminated curve is stopped where it stands.
    #[verifier::rlimit(100)]
    pub fn tick_running(&mut self, inputs: &Vec<CurveInput>, dt_ms: u64, now: u64) -> (winner:
        Option<usize>)
        requires
            old(self).wf(),
            old(self).ts_ok(now as int),
            inputs@.len() == old(self).curves@.len(),
            forall|q: int| 0 <= q < inputs@.len() ==> (#[trigger] inputs@[q]).valid(),
            dt_ms <= MAX_TICK_MS,
        ensures
            final(self).wf(),
            final(self).ts_ok(now as int),
            final(self).bounds == old(self).bounds,
            final(self).state == old(self).state,
            final(self).players == old(self).players,
            final(self).menu == old(self).menu,
            final(self).curves@.len() == old(self).curves@.len(),
            forall|i: int|
                0 <= i < old(self).curves@.len() ==> ((#[trigger] final(self).curves@[i]).player_id
                    == old(self).curves@[i].player_id && final(self).curves@[i].move_keys == old(self).curves@[i].move_keys && final(self).curves@[i].color == old(self).curves@[i].color),
            running_eliminations(
                old(self).curves@,
                final(self).curves@,
                old(self).bounds,
                dt_ms as int,
                inputs@,
            ),
            (winner is Some) <==> count_alive(final(self).curves@) == 1,
            forall|i: int|
                0 <= i < final(self).curves@.len() && (#[trigger] final(self).curves@[i]).alive
                    && count_alive(final(self).curves@) == 1 ==> winner == Some(
                    final(self).curves@[i].player_id,
                ),
            (winner is Some) ==> curves_frozen(old(self).curves@, final(self).curves@),
            (winner is None) ==> running_movement(
                old(self).curves@,
                final(self).curves@,
                dt_ms as int,
                inputs@,
            ),
            powers_tick_rel(
                old(self).powers,
                final(self).powers,
                old(self).curves@,
                final(self).curves@,
                dt_ms as int,
                inputs@,
                now as int,
                old(self).bounds,
            ),
    {
        let b = self.bounds;
        self.powers.tick_powermods(b, now);
        let ghost pms_mid = self.powers.powermods@;
        proof {
            if pms_mid != old(self).powers.powermods@ {
                assert(pms_mid.drop_last() =~= old(self).powers.powermods@);
            }
        }
        let collisions = compute_collisions(&self.curves, b, dt_ms, inputs);
        let split = split_pickups(&self.curves, dt_ms, inputs, &self.powers.powermods);
        let kept = split.0;
        let entries = split.1;
        proof {
            lemma_entries_valid(self.curves@, dt_ms as int, inputs@, pms_mid);
            lemma_uncollected_membership(self.curves@, dt_ms as int, inputs@, pms_mid);
            assert(pairwise_increasing(pms_mid));
            assert forall|a: int| 0 <= a < kept@.len() implies (#[trigger] kept@[a]).0
                < self.powers.last_id && kept@[a].1.point.in_range(POS_LIMIT as int) by {
                let j = choose|j: int| 0 <= j < pms_mid.len() && kept@[a] == pms_mid[j];
                assert(pms_mid[j].0 < self.powers.last_id);
            }
        }
        let ghost ts0 = self.powers.power_timeouts@;
        let ghost es_g = collected_entries(self.curves@, dt_ms as int, inputs@, pms_mid);
        proof {
            assert(ts0 == old(self).powers.power_timeouts@);
            assert(entries@ == es_g);
        }
        let ghost c0 = self.curves@;
        self.expire_powermods(now);
        let ghost c1 = self.curves@;
        self.apply_pickup_entries(kept, &entries, now);
        let ghost c2 = self.curves@;
        self.apply_collisions(&collisions);
        let ghost c3 = self.curves@;
        proof {
            assert(c0 == old(self).curves@);
            assert(c3 == self.curves@);
            assert forall|i: int| 0 <= i < c0.len() implies {
                let cc = #[trigger] self.curves@[i];
                let oc = c0[i];
                &&& cc.player_id == oc.player_id
                &&& cc.move_keys == oc.move_keys
                &&& cc.color == oc.color
                &&& cc.position == oc.position
                &&& cc.rotation == oc.rotation
                &&& cc.lines == oc.lines
                &&& cc.rotation_speed == c2[i].rotation_speed
                &&& cc.alive == (oc.alive && !curve_collides(
                    old(self).curves@,
                    old(self).bounds,
                    dt_ms as int,
                    inputs@,
                    i,
                ))
                &&& ((oc.alive && curve_collides(
                    old(self).curves@,
                    old(self).bounds,
                    dt_ms as int,
                    inputs@,
                    i,
                )) ==> cc.velocity == 0)
                &&& effects_on_curve(c0, self.curves@, ts0, es_g, now as int, i)
            } by {
                assert(effect_frame(c0[i], c1[i]));
                assert(effect_frame(c1[i], c2[i]));
                assert(c3[i] == (Curve {
                    alive: c3[i].alive,
                    velocity: c3[i].velocity,
                    ..c2[i]
                }));
                assert(collisions@[i] == curve_collides(
                    old(self).curves@,
                    old(self).bounds,
                    dt_ms as int,
                    inputs@,
                    i,
                ));
                assert(c3[i].alive == (c2[i].alive && !collisions@[i]));
                assert(self.curves@[i] == c3[i]);
                lemma_expired_count_nonneg(ts0, now as int, i);
                lemma_entry_count_nonneg(es_g, i);
                let ec = expired_count_for(ts0, now as int, i);
                let pc = entry_count_for(es_g, i);
                if c3[i].alive {
                    assert(c3[i].velocity == c2[i].velocity);
                }
                if ec == 0 && pc == 0 {
                    assert(c1[i] == c0[i]);
                    assert(c2[i] == c1[i]);
                } else if ec == 0 && pc == 1 {
                    assert(c1[i] == c0[i]);
                    let k = choose|k: int|
                        0 <= k < es_g.len() && (#[trigger] es_g[k]).0 == i && c2[i] == spec_apply(
                            es_g[k].2,
                            c1[i],
                            now as int,
                        );
                    assert(es_g[k].0 == i && {
                        let e = spec_apply(es_g[k].2, c0[i], now as int);
                        &&& c3[i].girth == e.girth
                        &&& c3[i].rotation_speed == e.rotation_speed
                        &&& (c3[i].alive ==> c3[i].velocity == e.velocity)
                    });
                } else if ec == 1 && pc == 0 {
                    assert(c2[i] == c1[i]);
                    let k = choose|k: int|
                        0 <= k < ts0.len() && timeout_expired(#[trigger] ts0[k], now as int)
                            && ts0[k].curve == i && c1[i] == spec_remove(
                            ts0[k].ty,
                            c0[i],
                            now as int,
                            c1[i].trail_fuse as int,
                        );
                    assert(ts0[k].curve == i && timeout_expired(ts0[k], now as int) && {
                        let e = spec_remove(ts0[k].ty, c0[i], now as int, 0);
                        &&& c3[i].girth == e.girth
                        &&& c3[i].rotation_speed == e.rotation_speed
                        &&& (c3[i].alive ==> c3[i].velocity == e.velocity)
                    });
                }
            }
        }
        proof {
            lemma_kept_timeouts_membership(ts0, now as int);
            assert forall|a: int| 0 <= a < self.powers.power_timeouts@.len() implies (
                #[trigger] self.powers.power_timeouts@[a]).started <= now by {
                let kt = kept_timeouts(ts0, now as int);
                if a < kt.len() {
                    assert(self.powers.power_timeouts@[a] == kt[a]);
                    let j = choose|j: int| 0 <= j < ts0.len() && kt[a] == ts0[j];
                } else {
                    let es = collected_entries(
                        old(self).curves@,
                        dt_ms as int,
                        inputs@,
                        pms_mid,
                    );
                    let k = a - kt.len();
                    assert(self.powers.power_timeouts@[a] == (PowerTimeout {
                        curve: es[k].0,
                        started: now,
                        ty: es[k].2,
                    }));
                }
            }
            assert(self.powers.power_timeouts@ =~= kept_timeouts(ts0, now as int) + timeouts_of(
                collected_entries(old(self).curves@, dt_ms as int, inputs@, pms_mid),
                now as int,
            ));
        }
        let win = self.check_winner();
        let ghost mid_curves = self.curves@;
        match win {
            Some(w) => {
                proof {
                    assert(powers_tick_rel(
                        old(self).powers,
                        self.powers,
                        old(self).curves@,
                        self.curves@,
                        dt_ms as int,
                        inputs@,
                        now as int,
                        old(self).bounds,
                    ));
                }
                Some(w)
            },
            None => {
                self.move_curves(inputs, dt_ms, now);
                proof {
                    lemma_count_alive_pointwise(self.curves@, mid_curves);
                    assert forall|i: int| 0 <= i < c0.len() implies {
                        let fc = #[trigger] self.curves@[i];
                        let oc = c0[i];
                        let inp = inputs@[i];
                        &&& fc.player_id == oc.player_id
                        &&& fc.move_keys == oc.move_keys
                        &&& fc.color == oc.color
                        &&& fc.position.x == crate::curve::clamp_pos(
                            oc.position.x + displacement(
                                fc.velocity as int,
                                dt_ms as int,
                                inp.turn_x as int,
                            ),
                        )
                        &&& fc.position.y == crate::curve::clamp_pos(
                            oc.position.y + displacement(
                                fc.velocity as int,
                                dt_ms as int,
                                inp.turn_y as int,
                            ),
                        )
                        &&& fc.rotation == crate::curve::wrap_angle(
                            oc.rotation + (if inp.cw {
                                fc.rotation_speed as int
                            } else {
                                0int
                            }) - (if inp.ccw {
                                fc.rotation_speed as int
                            } else {
                                0int
                            }),
                        )
                        &&& oc.lines@.len() <= fc.lines@.len() <= oc.lines@.len() + 1
                        &&& (forall|q: int|
                            0 <= q < oc.lines@.len() ==> fc.lines@[q] == oc.lines@[q])
                        &&& fc.alive == (oc.alive && !curve_collides(
                            old(self).curves@,
                            old(self).bounds,
                            dt_ms as int,
                            inputs@,
                            i,
                        ))
                        &&& ((oc.alive && curve_collides(
                            old(self).curves@,
                            old(self).bounds,
                            dt_ms as int,
                            inputs@,
                            i,
                        )) ==> fc.velocity == 0)
                    } by {
                        assert(moved_rel(
                            mid_curves[i],
                            self.curves@[i],
                            inputs@[i],
                            dt_ms as int,
                            now as int,
                        ));
                        assert(mid_curves[i] == c3[i]);
                        assert(c3[i].alive == (c0[i].alive && !curve_collides(
                            old(self).curves@,
                            old(self).bounds,
                            dt_ms as int,
                            inputs@,
                            i,
                        )));
                    }
                    assert forall|c: int| 0 <= c < c0.len() implies #[trigger] effects_on_curve(
                        c0,
                        self.curves@,
                        ts0,
                        es_g,
                        now as int,
                        c,
                    ) by {
                        assert(effects_on_curve(c0, mid_curves, ts0, es_g, now as int, c));
                        assert(moved_rel(
                            mid_curves[c],
                            self.curves@[c],
                            inputs@[c],
                            dt_ms as int,
                            now as int,
                        ));
                        lemma_expired_count_nonneg(ts0, now as int, c);
                        lemma_entry_count_nonneg(es_g, c);
                        let ec = expired_count_for(ts0, now as int, c);
                        let pc = entry_count_for(es_g, c);
                        if ec == 0 && pc == 1 {
                            let k = choose|k: int|
                                0 <= k < es_g.len() && (#[trigger] es_g[k]).0 == c && {
                                    let e = spec_apply(es_g[k].2, c0[c], now as int);
                                    &&& mid_curves[c].girth == e.girth
                                    &&& mid_curves[c].rotation_speed == e.rotation_speed
                                    &&& (mid_curves[c].alive ==> mid_curves[c].velocity
                                        == e.velocity)
                                };
                            assert(es_g[k].0 == c && {
                                let e = spec_apply(es_g[k].2, c0[c], now as int);
                                &&& self.curves@[c].girth == e.girth
                                &&& self.curves@[c].rotation_speed == e.rotation_speed
                                &&& (self.curves@[c].alive ==> self.curves@[c].velocity
                                    == e.velocity)
                            });
                        } else if ec == 1 && pc == 0 {
                            let k = choose|k: int|
                                0 <= k < ts0.len() && timeout_expired(#[trigger] ts0[k], now as int)
                                    && ts0[k].curve == c && {
                                    let e = spec_remove(ts0[k].ty, c0[c], now as int, 0);
                                    &&& mid_curves[c].girth == e.girth
                                    &&& mid_curves[c].rotation_speed == e.rotation_speed
                                    &&& (mid_curves[c].alive ==> mid_curves[c].velocity
                                        == e.velocity)
                                };
                            assert(ts0[k].curve == c && timeout_expired(ts0[k], now as int) && {
                                let e = spec_remove(ts0[k].ty, c0[c], now as int, 0);
                                &&& self.curves@[c].girth == e.girth
                                &&& self.curves@[c].rotation_speed == e.rotation_speed
                                &&& (self.curves@[c].alive ==> self.curves@[c].velocity
                                    == e.velocity)
                            });
                        }
                    }
                    assert(powers_tick_rel(
                        old(self).powers,
                        self.powers,
                        old(self).curves@,
                        self.curves@,
                        dt_ms as int,
                        inputs@,
                        now as int,
                        old(self).bounds,
                    ));
                }
                None
            },
        }
    }
}


impl Kurve {
    /// One countdown tick: curves may rotate in place (anticipation) but
    /// do not translate; once the countdown has elapsed, every trail
    /// timestamp is re-armed and the round goes live.
    pub fn tick_countdown(&mut self, inputs: &Vec<CurveInput>, now: u64, started: u64)
        requires
            old(self).wf(),
            old(self).ts_ok(now as int),
            started <= now,
            inputs@.len() == old(self).curves@.len(),
        ensures
            final(self).wf(),
            final(self).ts_ok(now as int),
            final(self).curves@.len() == old(self).curves@.len(),
            forall|i: int|
                0 <= i < old(self).curves@.len() ==> (#[trigger] final(self).curves@[i]).rotation
                    == old(self).curves@[i].spec_rotated(inputs@[i].ccw, inputs@[i].cw),
            forall|i: int|
                0 <= i < old(self).curves@.len() ==> (#[trigger] final(self).curves@[i]) == (Curve {
                    rotation: final(self).curves@[i].rotation,
                    trail_ts: final(self).curves@[i].trail_ts,
                    ..old(self).curves@[i]
                }),
            now - started >= WINNER_GLOAT_DURATION ==> (final(self).state == KurvePhase::Running
                && forall|i: int|
                0 <= i < old(self).curves@.len() ==> (#[trigger] final(self).curves@[i]).trail_ts
                    == now),
            now - started < WINNER_GLOAT_DURATION ==> (final(self).state == old(self).state
                && forall|i: int|
                0 <= i < old(self).curves@.len() ==> (#[trigger] final(self).curves@[i]).trail_ts
                    == old(self).curves@[i].trail_ts),
            final(self).players == old(self).players,
            final(self).powers == old(self).powers,
            final(self).menu == old(self).menu,
            final(self).bounds == old(self).bounds,
    {
        let fire = now - started >= WINNER_GLOAT_DURATION;
        let n = self.curves.len();
        let mut i: usize = 0;
        while i < n
            invariant
                0 <= i <= n,
                n == self.curves@.len(),
                n == old(self).curves@.len(),
                inputs@.len() == n,
                forall|q: int| 0 <= q < self.curves@.len() ==> (#[trigger] self.curves@[q]).wf(),
                forall|q: int| i <= q < n ==> self.curves@[q] == old(self).curves@[q],
                forall|q: int|
                    0 <= q < i ==> (#[trigger] self.curves@[q]).rotation == old(self).curves@[q].spec_rotated(inputs@[q].ccw, inputs@[q].cw),
                forall|q: int|
                    0 <= q < i ==> (#[trigger] self.curves@[q]) == (Curve {
                        rotation: self.curves@[q].rotation,
                        trail_ts: self.curves@[q].trail_ts,
                        ..old(self).curves@[q]
                    }),
                forall|q: int|
                    0 <= q < i ==> (#[trigger] self.curves@[q]).trail_ts == (if fire {
                        now
                    } else {
                        old(self).curves@[q].trail_ts
                    }),
                self.players == old(self).players,
                self.state == old(self).state,
                self.powers == old(self).powers,
                self.menu == old(self).menu,
                self.bounds == old(self).bounds,
            decreases n - i,
        {
            let inp = inputs[i];
            let mut c = dummy_curve();
            self.curves.set_and_swap(i, &mut c);
            c.rotate(inp.ccw, inp.cw);
            if fire {
                c.trail_ts = now;
            }
            self.curves.set_and_swap(i, &mut c);
            i = i + 1;
        }
        if fire {
            self.state = KurvePhase::Running;
        }
        proof {
            assert forall|q: int| 0 <= q < self.curves@.len() implies (#[trigger] self.curves@[q]).wf()
                && self.curves@[q].player_id == q && self.curves@[q].trail_ts <= now by {
                assert(self.curves@[q] == (Curve {
                    rotation: self.curves@[q].rotation,
                    trail_ts: self.curves@[q].trail_ts,
                    ..old(self).curves@[q]
                }));
            }
            assert(self.menu_wf());
        }
    }

    /// One winner-gloat tick: the curves keep moving and drawing; once
    /// the gloat has elapsed, curves and power-ups are fully reset and
    /// the next round's countdown begins automatically.
    pub fn tick_winner(&mut self, inputs: &Vec<CurveInput>, dt_ms: u64, now: u64, started: u64)
        requires
            old(self).wf(),
            old(self).ts_ok(now as int),
            started <= now,
            inputs@.len() == old(self).curves@.len(),
            forall|q: int| 0 <= q < inputs@.len() ==> (#[trigger] inputs@[q]).valid(),
            dt_ms <= MAX_TICK_MS,
        ensures
            final(self).wf(),
            final(self).ts_ok(now as int),
            final(self).curves@.len() == old(self).curves@.len(),
            now - started >= WINNER_GLOAT_DURATION ==> {
                &&& final(self).state == (KurvePhase::StartCountdown { started: now })
                &&& final(self).powers.powermods@.len() == 0
                &&& final(self).powers.power_timeouts@.len() == 0
                &&& final(self).powers.last_id == 0
                &&& MIN_POWERMOD_FUSE <= final(self).powers.power_fuse < MAX_POWERMOD_FUSE
                &&& forall|i: int|
                    0 <= i < old(self).curves@.len() ==> (curve_reset_core(
                        #[trigger] old(self).curves@[i],
                        final(self).curves@[i],
                        old(self).bounds,
                    ) && final(self).curves@[i].trail_ts <= now)
            },
            now - started < WINNER_GLOAT_DURATION ==> {
                &&& final(self).state == old(self).state
                &&& final(self).powers == old(self).powers
                &&& forall|i: int|
                    0 <= i < old(self).curves@.len() ==> moved_rel(
                        #[trigger] old(self).curves@[i],
                        final(self).curves@[i],
                        inputs@[i],
                        dt_ms as int,
                        now as int,
                    )
            },
            final(self).players == old(self).players,
            final(self).menu == old(self).menu,
            final(self).bounds == old(self).bounds,
    {
        self.move_curves(inputs, dt_ms, now);
        let ghost moved = self.curves@;
        if now - started >= WINNER_GLOAT_DURATION {
            self.reset_curves();
            self.powers.reset_powermods(now);
            self.state = KurvePhase::StartCountdown { started: now };
            proof {
                assert forall|i: int| 0 <= i < old(self).curves@.len() implies (curve_reset_core(
                    #[trigger] old(self).curves@[i],
                    self.curves@[i],
                    old(self).bounds,
                ) && self.curves@[i].trail_ts <= now) by {
                    assert(moved_rel(
                        old(self).curves@[i],
                        moved[i],
                        inputs@[i],
                        dt_ms as int,
                        now as int,
                    ));
                    assert(curve_reset_rel(moved[i], self.curves@[i], old(self).bounds));
                }
                assert forall|i: int| 0 <= i < self.curves@.len() implies (
                    #[trigger] self.curves@[i]).trail_ts <= now by {
                    assert(curve_reset_rel(moved[i], self.curves@[i], old(self).bounds));
                    assert(moved[i].trail_ts <= now);
                }
            }
        }
    }

    /// One paused tick: the cancel input abandons the round, resets the
    /// curves inside the current bounds, restores the staging rectangle
    /// and returns fully to setup.
    pub fn tick_pause(&mut self, cancel: bool, size_x: i64, size_y: i64)
        requires
            old(self).wf(),
            100 <= size_x <= 1_000_000,
            100 <= size_y <= 1_000_000,
        ensures
            final(self).wf(),
            !cancel ==> *final(self) == *old(self),
            cancel ==> {
                &&& final(self).state == KurvePhase::Setup
                &&& final(self).bounds == setup_bounds_for(size_x as int, size_y as int)
                &&& forall|i: int|
                    0 <= i < old(self).curves@.len() ==> curve_reset_rel(
                        #[trigger] old(self).curves@[i],
                        final(self).curves@[i],
                        old(self).bounds,
                    )
                &&& final(self).players == old(self).players
                &&& final(self).powers == old(self).powers
                &&& final(self).menu == old(self).menu
            },
    {
        if cancel {
            self.reset_curves();
            self.set_setup_bounds(size_x, size_y);
            self.state = KurvePhase::Setup;
        }
    }
}



/// The x projections of a sampled box, in sample order.
pub open spec fn xs_of(bb: Seq<Point>) -> Seq<i64> {
    Seq::new(bb.len(), |i: int| bb[i].x)
}

/// The y projections of a sampled box, in sample order.
pub open spec fn ys_of(bb: Seq<Point>) -> Seq<i64> {
    Seq::new(bb.len(), |i: int| bb[i].y)
}

/// Where the staging wrap puts a curve before it moves: if its probe box
/// escapes an axis interval, the curve teleports to the opposite edge of
/// that axis — wrap, never elimination.
pub open spec fn staged_wrap_pos(c: Curve, bounds: ArenaBounds, dt: int, inp: CurveInput) -> Point {
    let bb = probe_bbox(c, dt, inp);
    let px = match axis_collision(xs_of(bb), bounds.x_min as int, bounds.x_max as int) {
        Some(Collision::Min) => bounds.x_max,
        Some(Collision::Max) => bounds.x_min,
        None => c.position.x,
    };
    let py = match axis_collision(ys_of(bb), bounds.y_min as int, bounds.y_max as int) {
        Some(Collision::Min) => bounds.y_max,
        Some(Collision::Max) => bounds.y_min,
        None => c.position.y,
    };
    Point { x: px, y: py }
}

/// What one staging tick does to one curve: wrap at the staging walls,
/// then turn, trail and move exactly as in a live tick, except that the
/// trail keeps only its most recent segments — the oldest is dropped
/// once the cap is exceeded.
pub open spec fn staged_rel(
    before: Curve,
    after: Curve,
    bounds: ArenaBounds,
    inp: CurveInput,
    dt: int,
    now: int,
) -> bool {
    let mid = Curve { position: staged_wrap_pos(before, bounds, dt, inp), ..before };
    &&& after.player_id == before.player_id
    &&& after.velocity == before.velocity
    &&& after.rotation_speed == before.rotation_speed
    &&& after.girth == before.girth
    &&& after.move_keys == before.move_keys
    &&& after.alive == before.alive
    &&& after.color == before.color
    &&& after.rotation == before.spec_rotated(inp.ccw, inp.cw)
    &&& after.trail_active == mid.trail_active_after(now)
    &&& after.trail_ts == (if mid.gap_fires(now) || mid.reenable_fires(now) {
        now as u64
    } else {
        before.trail_ts
    })
    &&& (!mid.reenable_fires(now) ==> after.trail_fuse == before.trail_fuse)
    &&& (mid.reenable_fires(now) ==> TRAIL_SKIP_MIN <= after.trail_fuse < TRAIL_SKIP_MAX)
    &&& after.position.x == crate::curve::clamp_pos(
        mid.position.x + displacement(before.velocity as int, dt, inp.turn_x as int),
    )
    &&& after.position.y == crate::curve::clamp_pos(
        mid.position.y + displacement(before.velocity as int, dt, inp.turn_y as int),
    )
    &&& ({
        let grown = before.lines@.len() as int + (if mid.trail_active_after(now) {
            1int
        } else {
            0int
        });
        after.lines@.len() == (if grown > SETUP_TRAIL_CAP {
            grown - 1
        } else {
            grown
        })
    })
    &&& (mid.trail_active_after(now) ==> trail_segment_rel(mid, after.lines@.last(), inp, dt))
}

impl Kurve {
    /// One staging tick during setup: curves bounce around the smaller
    /// staging rectangle by wrapping to the opposite edge instead of
    /// being eliminated, keep rotating, drawing and moving, and keep only
    /// a short cosmetic trail.
    pub fn tick_setup_curves(&mut self, inputs: &Vec<CurveInput>, dt_ms: u64, now: u64)
        requires
            old(self).wf(),
            old(self).ts_ok(now as int),
            inputs@.len() == old(self).curves@.len(),
            forall|q: int| 0 <= q < inputs@.len() ==> (#[trigger] inputs@[q]).valid(),
            dt_ms <= MAX_TICK_MS,
        ensures
            final(self).wf(),
            final(self).ts_ok(now as int),
            final(self).curves@.len() == old(self).curves@.len(),
            forall|i: int|
                0 <= i < old(self).curves@.len() ==> staged_rel(
                    #[trigger] old(self).curves@[i],
                    final(self).curves@[i],
                    old(self).bounds,
                    inputs@[i],
                    dt_ms as int,
                    now as int,
                ),
            forall|i: int|
                0 <= i < old(self).curves@.len() && old(self).curves@[i].lines@.len()
                    <= SETUP_TRAIL_CAP ==> (#[trigger] final(self).curves@[i]).lines@.len()
                    <= SETUP_TRAIL_CAP,
            final(self).players == old(self).players,
            final(self).state == old(self).state,
            final(self).powers == old(self).powers,
            final(self).menu == old(self).menu,
            final(self).bounds == old(self).bounds,
    {
        let n = self.curves.len();
        let mut i: usize = 0;
        while i < n
            invariant
                0 <= i <= n,
                n == self.curves@.len(),
                n == old(self).curves@.len(),
                inputs@.len() == n,
                forall|q: int| 0 <= q < inputs@.len() ==> (#[trigger] inputs@[q]).valid(),
                dt_ms <= MAX_TICK_MS,
                now <= u64::MAX,
                self.bounds == old(self).bounds,
                self.bounds.wf(),
                forall|q: int| 0 <= q < self.curves@.len() ==> (#[trigger] self.curves@[q]).wf(),
                forall|q: int| i <= q < n ==> self.curves@[q] == old(self).curves@[q],
                forall|q: int| i <= q < n ==> (#[trigger] old(self).curves@[q]).trail_ts <= now,
                forall|q: int|
                    0 <= q < i ==> staged_rel(
                        #[trigger] old(self).curves@[q],
                        self.curves@[q],
                        old(self).bounds,
                        inputs@[q],
                        dt_ms as int,
                        now as int,
                    ),
                forall|q: int| 0 <= q < i ==> (#[trigger] self.curves@[q]).trail_ts <= now,
                self.players == old(self).players,
                self.state == old(self).state,
                self.powers == old(self).powers,
                self.menu == old(self).menu,
            decreases n - i,
        {
            let inp = inputs[i];
            let mut c = dummy_curve();
            self.curves.set_and_swap(i, &mut c);
            let ghost cb = c;
            let np = c.next_pos(dt_ms, inp.dir_x, inp.dir_y);
            proof {
                crate::curve::lemma_displacement_bound(
                    c.velocity as int,
                    dt_ms as int,
                    inp.dir_x as int,
                );
                crate::curve::lemma_displacement_bound(
                    c.velocity as int,
                    dt_ms as int,
                    inp.dir_y as int,
                );
                assert(np == probe_point(cb, dt_ms as int, inp));
            }
            let bb = BoundingBox::new(np, c.girth.radius());
            proof {
                assert(bb.0@ =~= probe_bbox(cb, dt_ms as int, inp));
            }
            let vx = bb.xs();
            let vy = bb.ys();
            proof {
                assert(vx@ =~= xs_of(probe_bbox(cb, dt_ms as int, inp)));
                assert(vy@ =~= ys_of(probe_bbox(cb, dt_ms as int, inp)));
            }
            match check_border_axis_collision(self.bounds.x_min, self.bounds.x_max, vx) {
                Some(Collision::Min) => {
                    c.position = Point { x: self.bounds.x_max, y: c.position.y };
                },
                Some(Collision::Max) => {
                    c.position = Point { x: self.bounds.x_min, y: c.position.y };
                },
                None => {},
            }
            match check_border_axis_collision(self.bounds.y_min, self.bounds.y_max, vy) {
                Some(Collision::Min) => {
                    c.position = Point { x: c.position.x, y: self.bounds.y_max };
                },
                Some(Collision::Max) => {
                    c.position = Point { x: c.position.x, y: self.bounds.y_min };
                },
                None => {},
            }
            proof {
                assert(c == (Curve {
                    position: staged_wrap_pos(cb, old(self).bounds, dt_ms as int, inp),
                    ..cb
                }));
            }
            let ghost mid = c;
            c.rotate(inp.ccw, inp.cw);
            c.tick_trail(now, dt_ms, inp.turn_x, inp.turn_y);
            c.mv(dt_ms, inp.turn_x, inp.turn_y);
            if c.lines.len() > SETUP_TRAIL_CAP {
                let _ = c.lines.remove(0);
            }
            proof {
                assert(staged_rel(cb, c, old(self).bounds, inputs@[i as int], dt_ms as int,
                    now as int));
            }
            self.curves.set_and_swap(i, &mut c);
            i = i + 1;
        }
        proof {
            assert forall|q: int| 0 <= q < self.curves@.len() implies (#[trigger] self.curves@[q]).wf()
                && self.curves@[q].player_id == q by {
                assert(staged_rel(old(self).curves@[q], self.curves@[q], old(self).bounds,
                    inputs@[q], dt_ms as int, now as int));
            }
            assert(self.menu_wf());
            assert forall|q: int|
                0 <= q < old(self).curves@.len() && old(self).curves@[q].lines@.len()
                    <= SETUP_TRAIL_CAP implies (#[trigger] self.curves@[q]).lines@.len()
                <= SETUP_TRAIL_CAP by {
                assert(staged_rel(old(self).curves@[q], self.curves@[q], old(self).bounds,
                    inputs@[q], dt_ms as int, now as int));
            }
        }
    }

    /// Adds a new player to the roster with the next free colour and key
    /// binding from the pools, a freshly spawned curve (stationary while
    /// paused) and a roster row inserted before the fixed menu entries.
    fn handle_add_player(&mut self, now: u64)
        requires
            old(self).wf(),
            old(self).ts_ok(now as int),
            old(self).menu.colors@.len() > 0,
            old(self).menu.active_mod is None,
        ensures
            final(self).wf(),
            final(self).ts_ok(now as int),
            final(self).players@.len() == old(self).players@.len() + 1,
            forall|i: int|
                0 <= i < old(self).players@.len() ==> (#[trigger] final(self).players@[i]).score
                    == old(self).players@[i].score && final(self).players@[i].name@ == old(self).players@[i].name@,
            final(self).players@.last().score == 0,
            final(self).players@.last().name@ == default_player_name(
                old(self).players@.len() as int,
            ),
            final(self).curves@.len() == old(self).curves@.len() + 1,
            forall|i: int|
                0 <= i < old(self).curves@.len() ==> final(self).curves@[i] == old(self).curves@[i],
            final(self).curves@.last().alive == !(old(self).state is Paused),
            final(self).curves@.last().velocity == (if old(self).state is Paused {
                0
            } else {
                DEFAULT_VELOCITY
            }),
            final(self).curves@.last().color == old(self).menu.colors@.last(),
            final(self).curves@.last().move_keys == old(self).menu.keys@.last(),
            final(self).menu.colors@ == old(self).menu.colors@.drop_last(),
            final(self).menu.keys@ == old(self).menu.keys@.drop_last(),
            final(self).menu.selected == old(self).menu.selected + 1,
            final(self).menu.items@.len() == old(self).menu.items@.len() + 1,
            final(self).menu.items@[old(self).players@.len() as int] matches
                KurveMenuItem::PlayerCurveConfig(c) && c.id == old(self).players@.len()
                && c.name@ == default_player_name(old(self).players@.len() as int) && c.color
                == old(self).menu.colors@.last() && c.keys == old(self).menu.keys@.last()
                && c.selected is Name,
            forall|i: int|
                0 <= i < old(self).players@.len() ==> final(self).menu.items@[i] == old(self).menu.items@[i],
            final(self).menu.colors@.len() == old(self).menu.colors@.len() - 1,
            final(self).state == old(self).state,
            final(self).bounds == old(self).bounds,
            final(self).powers == old(self).powers,
    {
        let id = self.players.len();
        let name = match id {
            0 => String::from_str("Player 1"),
            1 => String::from_str("Player 2"),
            2 => String::from_str("Player 3"),
            3 => String::from_str("Player 4"),
            _ => String::from_str("Player 5"),
        };
        let color = match self.menu.colors.pop() {
            Some(c) => c,
            None => unreached(),
        };
        let keys = match self.menu.keys.pop() {
            Some(k) => k,
            None => unreached(),
        };
        let config = PlayerConfig {
            id,
            name,
            color,
            keys,
            selected: PlayerConfigFocus::Name,
        };
        let pause = self.paused();
        let velocity: i64 = if pause {
            0
        } else {
            DEFAULT_VELOCITY
        };
        let pair = config.to_player_curve_pair(self.bounds, !pause, velocity, now);
        self.add_player(pair.0, pair.1);
        self.menu.items.insert(id, KurveMenuItem::PlayerCurveConfig(config));
        self.menu.selected = self.menu.selected + 1;
        proof {
            let n = old(self).players@.len() as int;
            assert(self.menu.items@.len() == n + 3);
            assert forall|i: int| 0 <= i < n + 1 implies ((#[trigger] self.menu.items@[i]) matches
                KurveMenuItem::PlayerCurveConfig(c) && c.id == i) by {
                if i < n {
                    assert(self.menu.items@[i] == old(self).menu.items@[i]);
                }
            }
            assert(self.menu.items@[n + 1] == old(self).menu.items@[n]);
            assert(self.menu.items@[n + 2] == old(self).menu.items@[n + 1]);
            assert forall|i: int| 0 <= i < self.curves@.len() implies (#[trigger] self.curves@[i]).wf()
                && self.curves@[i].player_id == i by {
                if i < n {
                    assert(self.curves@[i] == old(self).curves@[i]);
                }
            }
        }
    }
}


impl Kurve {
    /// Commits a finished editor onto the selected roster row: the new
    /// name, key bindings or colour land in the row's config and on the
    /// player and curve it owns. Physics, scores and trails are
    /// untouched.
    fn apply_active_modifier(&mut self, m: ActiveModifier)
        requires
            old(self).wf(),
            old(self).menu.items@[old(self).menu.selected as int] is PlayerCurveConfig,
            m matches ActiveModifier::Color(cm) ==> cm.wf(),
        ensures
            final(self).wf(),
            final(self).players@.len() == old(self).players@.len(),
            final(self).curves@.len() == old(self).curves@.len(),
            forall|i: int|
                0 <= i < old(self).players@.len() ==> (#[trigger] final(self).players@[i]).score
                    == old(self).players@[i].score,
            forall|i: int|
                0 <= i < old(self).curves@.len() ==> {
                    let fc = #[trigger] final(self).curves@[i];
                    let oc = old(self).curves@[i];
                    &&& fc.player_id == oc.player_id
                    &&& fc.position == oc.position
                    &&& fc.rotation == oc.rotation
                    &&& fc.velocity == oc.velocity
                    &&& fc.rotation_speed == oc.rotation_speed
                    &&& fc.girth == oc.girth
                    &&& fc.trail_fuse == oc.trail_fuse
                    &&& fc.trail_ts == oc.trail_ts
                    &&& fc.trail_active == oc.trail_active
                    &&& fc.lines == oc.lines
                    &&& fc.alive == oc.alive
                },
            final(self).state == old(self).state,
            final(self).bounds == old(self).bounds,
            final(self).powers == old(self).powers,
            final(self).menu.selected == old(self).menu.selected,
            final(self).menu.active_mod is None ==> final(self).menu.active_mod is None,
            final(self).menu.active_mod == old(self).menu.active_mod,
            final(self).menu.items@.len() == old(self).menu.items@.len(),
    {
        let id = self.extract_cfg_player_curve();
        let sel = self.menu.selected;
        let upd: PlayerConfig = match &self.menu.items[sel] {
            KurveMenuItem::PlayerCurveConfig(conf) => {
                match &m {
                    ActiveModifier::Name(nm) => PlayerConfig {
                        id: conf.id,
                        name: nm.buf.clone(),
                        color: conf.color,
                        keys: conf.keys,
                        selected: conf.selected,
                    },
                    ActiveModifier::Keys(km) => PlayerConfig {
                        id: conf.id,
                        name: conf.name.clone(),
                        color: conf.color,
                        keys: MoveKeys { cw: km.key_cw, ccw: km.key_ccw },
                        selected: conf.selected,
                    },
                    ActiveModifier::Color(cm) => PlayerConfig {
                        id: conf.id,
                        name: conf.name.clone(),
                        color: cm.colors[cm.selected],
                        keys: conf.keys,
                        selected: conf.selected,
                    },
                }
            },
            _ => unreached(),
        };
        // Copy the committed facts onto the owning player and curve.
        let new_name = upd.name.clone();
        let new_keys = upd.keys;
        let new_color = upd.color;
        self.menu.items.set(sel, KurveMenuItem::PlayerCurveConfig(upd));
        let mut p = Player { score: 0, name: String::new() };
        self.players.set_and_swap(id, &mut p);
        let score = p.score;
        self.players.set_and_swap(id, &mut (Player { score, name: new_name }));
        let mut c = dummy_curve();
        self.curves.set_and_swap(id, &mut c);
        c.move_keys = new_keys;
        c.color = new_color;
        self.curves.set_and_swap(id, &mut c);
        proof {
            assert forall|i: int| 0 <= i < self.curves@.len() implies (#[trigger] self.curves@[i]).wf()
                && self.curves@[i].player_id == i by {
                if i != id {
                    assert(self.curves@[i] == old(self).curves@[i]);
                }
            }
            let n = self.players@.len() as int;
            assert forall|i: int| 0 <= i < n implies ((#[trigger] self.menu.items@[i]) matches
                KurveMenuItem::PlayerCurveConfig(c2) && c2.id == i) by {
                if i != sel {
                    assert(self.menu.items@[i] == old(self).menu.items@[i]);
                }
            }
            assert(self.menu.items@[n] == old(self).menu.items@[n]);
            assert(self.menu.items@[n + 1] == old(self).menu.items@[n + 1]);
            assert(self.menu_wf());
        }
    }

    /// Removes the selected player from the roster: player and curve
    /// leave their arrays in lockstep, later curves take over the freed
    /// indices, the roster row disappears and its colour and key binding
    /// return to the pools. Timed effects owned by the removed curve are
    /// discarded; the others follow their curves to the shifted indices.
    fn remove_selected_player(&mut self)
        requires
            old(self).wf(),
            old(self).menu.items@[old(self).menu.selected as int] is PlayerCurveConfig,
            old(self).menu.active_mod is None,
        ensures
            final(self).wf(),
            final(self).players@.len() == old(self).players@.len() - 1,
            final(self).curves@.len() == old(self).curves@.len() - 1,
            forall|i: int|
                0 <= i < old(self).menu.selected ==> (#[trigger] final(self).players@[i]).score
                    == old(self).players@[i].score,
            forall|i: int|
                old(self).menu.selected <= i < final(self).players@.len() ==> (
                #[trigger] final(self).players@[i]).score == old(self).players@[i + 1].score,
            final(self).menu.colors@.len() == old(self).menu.colors@.len() + 1,
            final(self).menu.keys@.len() == old(self).menu.keys@.len() + 1,
            final(self).state == old(self).state,
            final(self).bounds == old(self).bounds,
            final(self).menu.active_mod is None,
            final(self).powers.powermods == old(self).powers.powermods,
            final(self).powers.last_powermod == old(self).powers.last_powermod,
            final(self).powers.last_id == old(self).powers.last_id,
            final(self).powers.power_fuse == old(self).powers.power_fuse,
            forall|q: int|
                0 <= q < final(self).powers.power_timeouts@.len() ==> exists|w: int|
                    0 <= w < old(self).powers.power_timeouts@.len() && (
                    #[trigger] final(self).powers.power_timeouts@[q]).started == old(self).powers.power_timeouts@[w].started,
            forall|i: int|
                0 <= i < final(self).curves@.len() ==> ((#[trigger] final(self).curves@[i]).trail_ts
                    == old(self).curves@[i].trail_ts || final(self).curves@[i].trail_ts == old(self).curves@[i + 1].trail_ts),
    {
        let id = self.extract_cfg_player_curve();
        let _removed_player = self.players.remove(id);
        let removed_curve = self.curves.remove(id);
        // Later curves take over the freed indices.
        let n = self.curves.len();
        let mut j: usize = id;
        while j < n
            invariant
                id <= j <= n,
                n == self.curves@.len(),
                n == old(self).curves@.len() - 1,
                id == old(self).menu.selected,
                id <= n,
                forall|q: int| 0 <= q < id ==> self.curves@[q] == old(self).curves@[q],
                forall|q: int|
                    j <= q < n ==> self.curves@[q] == old(self).curves@[q + 1],
                forall|q: int|
                    id <= q < j ==> (#[trigger] self.curves@[q]) == (Curve {
                        player_id: q as usize,
                        ..old(self).curves@[q + 1]
                    }),
                self.players@.len() == n,
                self.state == old(self).state,
                self.bounds == old(self).bounds,
                self.powers == old(self).powers,
                self.menu == old(self).menu,
                forall|q: int| 0 <= q < id ==> self.players@[q] == old(self).players@[q],
                forall|q: int|
                    id <= q < n ==> self.players@[q] == old(self).players@[q + 1],
            decreases n - j,
        {
            let mut c = dummy_curve();
            self.curves.set_and_swap(j, &mut c);
            c.player_id = j;
            self.curves.set_and_swap(j, &mut c);
            j = j + 1;
        }
        // Timed effects follow their curves; the removed curve's vanish.
        let ghost ts0 = self.powers.power_timeouts@;
        let m = self.powers.power_timeouts.len();
        let mut kept: Vec<PowerTimeout> = Vec::new();
        let mut k: usize = 0;
        while k < m
            invariant
                0 <= k <= m,
                m == self.powers.power_timeouts@.len(),
                self.powers.power_timeouts@ == ts0,
                forall|q: int| 0 <= q < ts0.len() ==> (#[trigger] ts0[q]).curve < n + 1,
                n == self.curves@.len(),
                id <= n,
                forall|q: int|
                    0 <= q < kept@.len() ==> (#[trigger] kept@[q]).curve < n,
                forall|q: int|
                    0 <= q < kept@.len() ==> exists|w: int|
                        0 <= w < ts0.len() && (#[trigger] kept@[q]).started == ts0[w].started,
            decreases m - k,
        {
            let t = self.powers.power_timeouts[k];
            if t.curve < id {
                kept.push(t);
            } else if t.curve > id {
                kept.push(PowerTimeout { curve: t.curve - 1, started: t.started, ty: t.ty });
            }
            k = k + 1;
        }
        self.powers.power_timeouts = kept;
        // The roster row disappears; rows after it move up one slot.
        let sel = self.menu.selected;
        let _ = self.menu.items.remove(sel);
        let ghost items_mid = self.menu.items@;
        self.menu.decrement_config_ids(sel);
        self.menu.colors.push(removed_curve.color);
        self.menu.keys.push(removed_curve.move_keys);
        self.menu.selected = if sel > 0 {
            sel - 1
        } else {
            0
        };
        proof {
            let n2 = self.players@.len() as int;
            assert forall|i: int| 0 <= i < n2 implies ((#[trigger] self.menu.items@[i]) matches
                KurveMenuItem::PlayerCurveConfig(c2) && c2.id == i) by {
                if i < id {
                    assert(self.menu.items@[i] == old(self).menu.items@[i]);
                } else {
                    assert(items_mid[i] == old(self).menu.items@[i + 1]);
                    assert(dec_item_rel(items_mid[i], self.menu.items@[i]));
                }
            }
            assert(self.menu.items@[n2] is AddPlayer) by {
                assert(items_mid[n2] == old(self).menu.items@[n2 + 1]);
                assert(dec_item_rel(items_mid[n2], self.menu.items@[n2]));
            }
            assert(self.menu.items@[n2 + 1] is Start) by {
                assert(items_mid[n2 + 1] == old(self).menu.items@[n2 + 2]);
                assert(dec_item_rel(items_mid[n2 + 1], self.menu.items@[n2 + 1]));
            }
            assert forall|i: int| 0 <= i < self.curves@.len() implies (#[trigger] self.curves@[i]).wf()
                && self.curves@[i].player_id == i by {
                if i < id {
                    assert(self.curves@[i] == old(self).curves@[i]);
                } else {
                    assert(self.curves@[i] == (Curve {
                        player_id: i as usize,
                        ..old(self).curves@[i + 1]
                    }));
                }
            }
            assert(self.menu_wf());
        }
    }
}


/// The default display name a freshly added player gets for its roster
/// slot.
pub open spec fn default_player_name(id: int) -> Seq<char> {
    if id == 0 {
        "Player 1"@
    } else if id == 1 {
        "Player 2"@
    } else if id == 2 {
        "Player 3"@
    } else if id == 3 {
        "Player 4"@
    } else {
        "Player 5"@
    }
}

/// Where the row cursor lands after one tick of up/down input, wrapping
/// at both ends; up is handled first, as the input layer delivers it.
pub open spec fn menu_cursor_after(sel: int, len: int, up: bool, down: bool) -> int {
    let s1 = if up {
        if sel == 0 {
            len - 1
        } else {
            sel - 1
        }
    } else {
        sel
    };
    if down {
        (s1 + 1) % len
    } else {
        s1
    }
}

/// A focused editor survives this tick: one is open and the cancel key
/// was not pressed, so the menu input goes to the editor alone.
pub open spec fn menu_editor_stays(k: Kurve, input: MenuInput) -> bool {
    k.menu.active_mod is Some && !input.cancel
}

/// The start entry is confirmed this tick: the round leaves setup.
pub open spec fn menu_start_fires(k: Kurve, input: MenuInput) -> bool {
    &&& input.confirm
    &&& !menu_editor_stays(k, input)
    &&& k.menu.items@[k.menu.selected as int] is Start
}

/// The add-player entry is confirmed with a colour still free.
pub open spec fn menu_add_fires(k: Kurve, input: MenuInput) -> bool {
    &&& input.confirm
    &&& !menu_editor_stays(k, input)
    &&& k.menu.items@[k.menu.selected as int] is AddPlayer
    &&& k.menu.colors@.len() > 0
}

/// A roster row's remove column is confirmed this tick (the column
/// cursor is read after this tick's left/right navigation).
pub open spec fn menu_remove_fires(k: Kurve, input: MenuInput) -> bool {
    &&& input.confirm
    &&& !menu_editor_stays(k, input)
    &&& (k.menu.items@[k.menu.selected as int] matches KurveMenuItem::PlayerCurveConfig(c)
        && spec_nav_focus(c.selected, input.left, input.right) is Remove)
}

impl Kurve {
    /// One setup-menu tick: a focused editor consumes the input first
    /// (cancel abandons it, confirm commits it); otherwise the cursor
    /// navigates, confirm acts on the selected entry — opening an
    /// editor, removing a player, adding a player, or starting the round
    /// with freshly reset curves, power-ups and play bounds — and the
    /// up/down keys move the row cursor with wraparound.
    #[verifier::rlimit(100)]
    pub fn tick_setup_menu(&mut self, input: &MenuInput, size_x: i64, size_y: i64, now: u64)
        requires
            old(self).wf(),
            old(self).ts_ok(now as int),
            100 <= size_x <= 1_000_000,
            100 <= size_y <= 1_000_000,
        ensures
            final(self).wf(),
            final(self).ts_ok(now as int),
            menu_start_fires(*old(self), *input) ==> {
                &&& final(self).state == (KurvePhase::StartCountdown { started: now })
                &&& final(self).bounds == running_bounds_for(size_x as int, size_y as int)
                &&& final(self).powers.powermods@.len() == 0
                &&& final(self).powers.power_timeouts@.len() == 0
                &&& final(self).powers.last_id == 0
                &&& MIN_POWERMOD_FUSE <= final(self).powers.power_fuse < MAX_POWERMOD_FUSE
                &&& final(self).players == old(self).players
                &&& forall|i: int|
                    0 <= i < old(self).curves@.len() ==> curve_reset_rel(
                        #[trigger] old(self).curves@[i],
                        final(self).curves@[i],
                        final(self).bounds,
                    )
            },
            !menu_start_fires(*old(self), *input) ==> (final(self).state == old(self).state
                && final(self).bounds == old(self).bounds && final(self).powers.powermods == old(self).powers.powermods
                && final(self).powers.power_fuse == old(self).powers.power_fuse
                && final(self).powers.last_powermod == old(self).powers.last_powermod
                && final(self).powers.last_id == old(self).powers.last_id),
            !menu_start_fires(*old(self), *input) && !menu_remove_fires(*old(self), *input)
                ==> final(self).powers == old(self).powers,
            menu_remove_fires(*old(self), *input) ==> (final(self).players@.len() == old(self).players@.len() - 1 && final(self).curves@.len() == old(self).curves@.len() - 1
                && final(self).menu.colors@.len() == old(self).menu.colors@.len() + 1
                && final(self).menu.keys@.len() == old(self).menu.keys@.len() + 1),
            !menu_editor_stays(*old(self), *input) && !input.confirm ==> {
                &&& final(self).menu.items@.len() == old(self).menu.items@.len()
                &&& (forall|i: int|
                    0 <= i < old(self).menu.items@.len() ==> nav_item_rel(
                        #[trigger] old(self).menu.items@[i],
                        final(self).menu.items@[i],
                        input.left,
                        input.right,
                    ))
                &&& final(self).menu.selected == menu_cursor_after(
                    old(self).menu.selected as int,
                    old(self).menu.items@.len() as int,
                    input.up,
                    input.down,
                )
                &&& final(self).menu.active_mod is None
                &&& final(self).players == old(self).players
            },
            menu_add_fires(*old(self), *input) ==> (final(self).players@.len() == old(self).players@.len() + 1 && forall|i: int|
                0 <= i < old(self).players@.len() ==> (#[trigger] final(self).players@[i]).score
                    == old(self).players@[i].score),
            !menu_remove_fires(*old(self), *input) && !menu_add_fires(*old(self), *input) ==> (
            final(self).players@.len() == old(self).players@.len() && forall|i: int|
                0 <= i < old(self).players@.len() ==> (#[trigger] final(self).players@[i]).score
                    == old(self).players@[i].score),
    {
        if self.menu.active_mod.is_some() && input.cancel {
            self.menu.active_mod = None;
        }
        if self.menu.active_mod.is_some() && input.confirm {
            let mut taken: Option<ActiveModifier> = None;
            core::mem::swap(&mut taken, &mut self.menu.active_mod);
            match taken {
                Some(md) => {
                    self.apply_active_modifier(md);
                },
                None => {
                    proof {
                        assert(false);
                    }
                },
            }
            proof {
                assert forall|i: int| 0 <= i < self.curves@.len() implies (
                    #[trigger] self.curves@[i]).trail_ts <= now by {
                    assert(self.curves@[i].trail_ts == old(self).curves@[i].trail_ts);
                    assert(old(self).curves@[i].trail_ts <= now);
                }
                assert(self.ts_ok(now as int));
            }
            return ;
        }
        let mut editor_ran = false;
        match &mut self.menu.active_mod {
            Some(ActiveModifier::Name(nm)) => {
                nm.update(input);
                editor_ran = true;
            },
            Some(ActiveModifier::Keys(km)) => {
                km.update(input);
                editor_ran = true;
            },
            Some(ActiveModifier::Color(cm)) => {
                cm.update(input.left, input.right);
                editor_ran = true;
            },
            None => {},
        }
        if editor_ran {
            return ;
        }
        let ghost pre_nav = *self;
        self.menu.navigate(input.left, input.right);
        proof {
            let n = self.players@.len() as int;
            assert forall|i: int| 0 <= i < n implies ((#[trigger] self.menu.items@[i]) matches
                KurveMenuItem::PlayerCurveConfig(c) && c.id == i) by {
                assert(nav_item_rel(
                    pre_nav.menu.items@[i],
                    self.menu.items@[i],
                    input.left,
                    input.right,
                ));
            }
            assert(self.menu.items@[n] is AddPlayer) by {
                assert(nav_item_rel(
                    pre_nav.menu.items@[n],
                    self.menu.items@[n],
                    input.left,
                    input.right,
                ));
            }
            assert(self.menu.items@[n + 1] is Start) by {
                assert(nav_item_rel(
                    pre_nav.menu.items@[n + 1],
                    self.menu.items@[n + 1],
                    input.left,
                    input.right,
                ));
            }
            assert(self.menu_wf());
            assert(self.wf());
        }
        if input.confirm {
            let sel = self.menu.selected;
            let kind: u8 = match &self.menu.items[sel] {
                KurveMenuItem::PlayerCurveConfig(_) => 0,
                KurveMenuItem::AddPlayer => 1,
                KurveMenuItem::Start => 2,
            };
            if kind == 0 {
                proof {
                    assert(nav_item_rel(
                        old(self).menu.items@[sel as int],
                        self.menu.items@[sel as int],
                        input.left,
                        input.right,
                    ));
                }
                match self.menu.select_item() {
                    Some(SelectAction::Modifier(md)) => {
                        self.menu.active_mod = Some(md);
                    },
                    Some(SelectAction::RemovePlayer) => {
                        let ghost pre_rm = *self;
                        self.remove_selected_player();
                        proof {
                            assert forall|i: int| 0 <= i < self.curves@.len() implies (
                                #[trigger] self.curves@[i]).trail_ts <= now by {
                                assert(pre_rm.curves@[i].trail_ts <= now);
                                assert(pre_rm.curves@[i + 1].trail_ts <= now);
                            }
                            assert forall|q: int|
                                0 <= q < self.powers.power_timeouts@.len() implies (
                                #[trigger] self.powers.power_timeouts@[q]).started <= now by {
                                let w = choose|w: int|
                                    0 <= w < pre_rm.powers.power_timeouts@.len()
                                        && self.powers.power_timeouts@[q].started
                                        == pre_rm.powers.power_timeouts@[w].started;
                                assert(pre_rm.powers.power_timeouts@[w].started <= now);
                            }
                            assert(self.ts_ok(now as int));
                        }
                    },
                    None => {},
                }
            } else if kind == 1 {
                if self.menu.colors.len() > 0 {
                    self.handle_add_player(now);
                    let ghost pre_home = *self;
                    self.menu.reset_focus_all();
                    proof {
                        let n = self.players@.len() as int;
                        assert forall|i: int| 0 <= i < n implies ((
                            #[trigger] self.menu.items@[i]) matches
                            KurveMenuItem::PlayerCurveConfig(c) && c.id == i) by {
                            assert(home_item_rel(pre_home.menu.items@[i], self.menu.items@[i]));
                        }
                        assert(self.menu.items@[n] is AddPlayer) by {
                            assert(home_item_rel(pre_home.menu.items@[n], self.menu.items@[n]));
                        }
                        assert(self.menu.items@[n + 1] is Start) by {
                            assert(home_item_rel(
                                pre_home.menu.items@[n + 1],
                                self.menu.items@[n + 1],
                            ));
                        }
                        assert(self.menu_wf());
                        assert(self.wf());
                    }
                }
            } else {
                self.set_running_bounds(size_x, size_y);
                self.reset_curves();
                self.powers.reset_powermods(now);
                self.state = KurvePhase::StartCountdown { started: now };
                self.menu.selected = 0;
            }
        }
        if self.menu.active_mod.is_none() {
            let len = self.menu.items.len();
            if input.up {
                if self.menu.selected == 0 {
                    self.menu.selected = len - 1;
                } else {
                    self.menu.selected = self.menu.selected - 1;
                }
            }
            if input.down {
                self.menu.selected = (self.menu.selected + 1) % len;
            }
        }
    }
}


/// A positive liveness count names at least one living curve.
pub proof fn lemma_count_alive_exists(cs: Seq<Curve>)
    requires
        count_alive(cs) >= 1,
    ensures
        exists|i: int| 0 <= i < cs.len() && (#[trigger] cs[i]).alive,
    decreases cs.len(),
{
    if cs.len() > 0 {
        if cs.last().alive {
            assert(cs[cs.len() - 1].alive);
        } else {
            lemma_count_alive_exists(cs.drop_last());
            let i = choose|i: int| 0 <= i < cs.drop_last().len() && cs.drop_last()[i].alive;
            assert(cs[i].alive);
        }
    }
}

/// The phase after the pause key has been handled: Running and Paused
/// toggle into each other, every other phase ignores it.
pub open spec fn toggled_phase(st: KurvePhase, pause: bool) -> KurvePhase {
    if pause {
        match st {
            KurvePhase::Running => KurvePhase::Paused,
            KurvePhase::Paused => KurvePhase::Running,
            _ => st,
        }
    } else {
        st
    }
}

/// Everything one simulation tick needs from the outside world: the
/// monotonic clock, the tick length, the viewport, the edge-triggered
/// menu events and each curve's held keys and heading vectors.
pub struct UpdateInput {
    /// The injected monotonic clock, milliseconds.
    pub now: u64,
    /// How long this tick spans, milliseconds.
    pub dt_ms: u64,
    /// Viewport width, pixels.
    pub size_x: i64,
    /// Viewport height, pixels.
    pub size_y: i64,
    /// The pause key was just pressed.
    pub pause: bool,
    /// This tick's menu events.
    pub menu: MenuInput,
    /// One entry per curve, aligned with the curve array.
    pub curves: Vec<CurveInput>,
}

impl Kurve {
    /// Advances the whole game by one tick: the pause key toggles
    /// Running and Paused, then the current phase's handler runs — menu
    /// and staging physics in Setup, the full collision and power-up
    /// simulation in Running (crowning a winner and bumping their score
    /// when exactly one curve is left), rotation only during the
    /// countdown, gloating movement in Winner, and the menu plus the
    /// cancel path while Paused.
    pub fn update(&mut self, input: &UpdateInput) -> (winner: Option<usize>)
        requires
            old(self).wf(),
            old(self).ts_ok(input.now as int),
            input.curves@.len() == old(self).curves@.len(),
            forall|q: int| 0 <= q < input.curves@.len() ==> (#[trigger] input.curves@[q]).valid(),
            input.dt_ms <= MAX_TICK_MS,
            100 <= input.size_x <= 1_000_000,
            100 <= input.size_y <= 1_000_000,
            forall|i: int|
                0 <= i < old(self).players@.len() ==> (#[trigger] old(self).players@[i]).score
                    < 255,
        ensures
            final(self).wf(),
            final(self).ts_ok(input.now as int),
            ({
                let st = toggled_phase(old(self).state, input.pause);
                match st {
                    KurvePhase::Setup => final(self).state is Setup || final(self).state
                        == (KurvePhase::StartCountdown { started: input.now }),
                    KurvePhase::Running => final(self).state is Running || (final(self).state
                        matches KurvePhase::Winner { started, id } && started == input.now),
                    KurvePhase::StartCountdown { started } => final(self).state == st || final(self).state is Running,
                    KurvePhase::Winner { started, id } => final(self).state == st || final(self).state == (KurvePhase::StartCountdown { started: input.now }),
                    KurvePhase::Paused => final(self).state is Paused || final(self).state is Setup
                        || final(self).state == (KurvePhase::StartCountdown {
                        started: input.now,
                    }),
                }
            }),
            winner matches Some(w) ==> {
                &&& toggled_phase(old(self).state, input.pause) is Running
                &&& w < final(self).players@.len()
                &&& final(self).state == (KurvePhase::Winner { started: input.now, id: w })
                &&& final(self).players@[w as int].score == old(self).players@[w as int].score + 1
                &&& (forall|i: int|
                    0 <= i < old(self).players@.len() && i != w ==> #[trigger] final(self).players@[i] == old(self).players@[i])
                &&& count_alive(final(self).curves@) == 1
                &&& final(self).curves@[w as int].alive
            },
            toggled_phase(old(self).state, input.pause) is Running && winner is None ==> (final(self).state is Running && final(self).players == old(self).players),
            toggled_phase(old(self).state, input.pause) is Running ==> {
                &&& running_eliminations(
                    old(self).curves@,
                    final(self).curves@,
                    old(self).bounds,
                    input.dt_ms as int,
                    input.curves@,
                )
                &&& powers_tick_rel(
                    old(self).powers,
                    final(self).powers,
                    old(self).curves@,
                    final(self).curves@,
                    input.dt_ms as int,
                    input.curves@,
                    input.now as int,
                    old(self).bounds,
                )
                &&& ((winner is Some) <==> count_alive(final(self).curves@) == 1)
                &&& (winner is None ==> running_movement(
                    old(self).curves@,
                    final(self).curves@,
                    input.dt_ms as int,
                    input.curves@,
                ))
                &&& (winner is Some ==> curves_frozen(old(self).curves@, final(self).curves@))
            },
    {
        if input.pause {
            self.toggle_pause();
        }
        let st = self.state;
        match st {
            KurvePhase::Setup => {
                self.tick_setup_curves(&input.curves, input.dt_ms, input.now);
                self.tick_setup_menu(&input.menu, input.size_x, input.size_y, input.now);
                None
            },
            KurvePhase::Running => {
                let r = self.tick_running(&input.curves, input.dt_ms, input.now);
                let ghost kr = *self;
                match r {
                    Some(w) => {
                        proof {
                            lemma_count_alive_exists(self.curves@);
                            let i = choose|i: int|
                                0 <= i < self.curves@.len() && (#[trigger] self.curves@[i]).alive;
                            assert(r == Some(self.curves@[i].player_id));
                        }
                        self.state = KurvePhase::Winner { started: input.now, id: w };
                        let mut p = Player { score: 0, name: String::new() };
                        self.players.set_and_swap(w, &mut p);
                        p.score = p.score + 1;
                        self.players.set_and_swap(w, &mut p);
                        proof {
                            assert(self.curves@[w as int].alive);
                            assert(kr.ts_ok(input.now as int));
                            assert(self.curves == kr.curves);
                            assert(self.powers == kr.powers);
                            assert forall|i: int|
                                0 <= i < old(self).players@.len() && i != w implies (
                                #[trigger] self.players@[i]) == old(self).players@[i] by {
                                assert(kr.players@[i] == old(self).players@[i]);
                            }
                            assert forall|i: int| 0 <= i < self.curves@.len() implies (
                                #[trigger] self.curves@[i]).trail_ts <= input.now by {
                                assert(self.curves@[i] == kr.curves@[i]);
                            }
                            assert forall|q: int|
                                0 <= q < self.powers.power_timeouts@.len() implies (
                                #[trigger] self.powers.power_timeouts@[q]).started <= input.now by {
                                assert(self.powers.power_timeouts@[q]
                                    == kr.powers.power_timeouts@[q]);
                            }
                            assert(self.ts_ok(input.now as int));
                        }
                        Some(w)
                    },
                    None => None,
                }
            },
            KurvePhase::StartCountdown { started } => {
                self.tick_countdown(&input.curves, input.now, started);
                None
            },
            KurvePhase::Winner { started, id } => {
                self.tick_winner(&input.curves, input.dt_ms, input.now, started);
                None
            },
            KurvePhase::Paused => {
                self.tick_setup_menu(&input.menu, input.size_x, input.size_y, input.now);
                let ghost km = *self;
                self.tick_pause(input.menu.cancel, input.size_x, input.size_y);
                proof {
                    assert(km.ts_ok(input.now as int));
                    if input.menu.cancel {
                        assert forall|i: int| 0 <= i < self.curves@.len() implies (
                            #[trigger] self.curves@[i]).trail_ts <= input.now by {
                            assert(curve_reset_rel(km.curves@[i], self.curves@[i], km.bounds));
                            assert(km.curves@[i].trail_ts <= input.now);
                        }
                        assert(self.powers == km.powers);
                        assert(self.ts_ok(input.now as int));
                    }
                }
                None
            },
        }
    }

    /// A fresh game: two players with default names, colours and key
    /// bindings drawn from the pools, curves spawned in the staging
    /// rectangle, the menu cursor on the start entry, an idle power-up
    /// supply and the Setup phase.
    pub fn new(size_x: i64, size_y: i64, now: u64) -> (k: Kurve)
        requires
            100 <= size_x <= 1_000_000,
            100 <= size_y <= 1_000_000,
        ensures
            k.wf(),
            k.ts_ok(now as int),
            k.state == KurvePhase::Setup,
            k.players@.len() == 2,
            forall|i: int| 0 <= i < 2 ==> (#[trigger] k.players@[i]).score == 0,
            k.powers.powermods@.len() == 0,
            k.powers.power_timeouts@.len() == 0,
            k.powers.last_id == 0,
            k.powers.power_fuse == u64::MAX,
            k.powers.last_powermod == now,
            k.menu.selected == 3,
            k.menu.items@.len() == 4,
            k.menu.colors@.len() == 3,
            k.menu.keys@.len() == 3,
    {
        let mut colors: Vec<u32> = Vec::new();
        colors.push(0x00FF00);
        colors.push(0xFFFF00);
        colors.push(0xFF00FF);
        colors.push(0x00FFFF);
        colors.push(0xFF1A1A);
        let mut keys: Vec<MoveKeys> = Vec::new();
        keys.push(MoveKeys { ccw: 33, cw: 34 });
        keys.push(MoveKeys { ccw: 74, cw: 75 });
        keys.push(MoveKeys { ccw: 86, cw: 66 });
        keys.push(MoveKeys { ccw: 79, cw: 80 });
        keys.push(MoveKeys { ccw: 81, cw: 87 });
        let color1 = match colors.pop() {
            Some(c) => c,
            None => unreached(),
        };
        let keys1 = match keys.pop() {
            Some(kk) => kk,
            None => unreached(),
        };
        let color2 = match colors.pop() {
            Some(c) => c,
            None => unreached(),
        };
        let keys2 = match keys.pop() {
            Some(kk) => kk,
            None => unreached(),
        };
        let config1 = PlayerConfig {
            id: 0,
            name: String::from_str("Player 1"),
            color: color1,
            keys: keys1,
            selected: PlayerConfigFocus::Name,
        };
        let config2 = PlayerConfig {
            id: 1,
            name: String::from_str("Player 2"),
            color: color2,
            keys: keys2,
            selected: PlayerConfigFocus::Name,
        };
        let center = Point {
            x: size_x * SETUP_KURVE_CENTER_X_PCT / 100,
            y: size_y * SETUP_KURVE_CENTER_Y_PCT / 100,
        };
        proof {
            assert(0 <= size_x * SETUP_KURVE_CENTER_X_PCT <= 100_000_000
                && 0 <= size_y * SETUP_KURVE_CENTER_Y_PCT <= 100_000_000
                && size_x * SIZE_SMALL_X_PCT >= 200 && size_y * SIZE_SMALL_Y_PCT >= 200)
                by (nonlinear_arith)
                requires
                    100 <= size_x <= 1_000_000,
                    100 <= size_y <= 1_000_000,
            ;
        }
        let bounds = ArenaBounds::new(center, size_x, size_y, SIZE_SMALL_X_PCT, SIZE_SMALL_Y_PCT);
        let pair1 = config1.to_player_curve_pair(bounds, true, DEFAULT_VELOCITY, now);
        let pair2 = config2.to_player_curve_pair(bounds, true, DEFAULT_VELOCITY, now);
        let mut players: Vec<Player> = Vec::new();
        players.push(pair1.0);
        players.push(pair2.0);
        let mut curves: Vec<Curve> = Vec::new();
        curves.push(pair1.1);
        curves.push(pair2.1);
        let mut items: Vec<KurveMenuItem> = Vec::new();
        items.push(KurveMenuItem::PlayerCurveConfig(config1));
        items.push(KurveMenuItem::PlayerCurveConfig(config2));
        items.push(KurveMenuItem::AddPlayer);
        items.push(KurveMenuItem::Start);
        let k = Kurve {
            bounds,
            players,
            curves,
            state: KurvePhase::Setup,
            powers: PowerSupply {
                powermods: Vec::new(),
                power_timeouts: Vec::new(),
                power_fuse: u64::MAX,
                last_powermod: now,
                last_id: 0,
            },
            menu: KurveMenu { items, selected: 3, colors, keys, active_mod: None },
        };
        k
    }
}

} // verus!
