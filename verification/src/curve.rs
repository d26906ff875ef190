//! The curve entity: one per player. Position on the pixel grid, heading
//! in integer microradians, velocity in pixels per second, the girth, the
//! trail history and the trail-gap timing.
//!
//! A tick hands in the heading unit vectors (scaled by [`DIR_SCALE`]) for
//! the heading before and after this tick's rotation; everything else the
//! entity computes and commits itself.

use vstd::arithmetic::div_mod::{
    lemma_fundamental_div_mod, lemma_mod_bound, lemma_mod_multiples_vanish,
};
use vstd::prelude::*;

use crate::kurve::{
    DEFAULT_ROTATION, DIR_SCALE, INV_DURATION, MAX_TICK_MS, POS_LIMIT, ROT_SPEED_LIMIT,
    TAU_MICRORAD, TRAIL_LIMIT, TRAIL_SKIP_MAX, TRAIL_SKIP_MIN, VEL_LIMIT,
};
use crate::point::{interp_point, num_steps, point_in_box, round_div, Girth, Line, Point};
use crate::rng::{rand_i64_range, rand_u64_range};

verus! {

/// The key codes steering a curve, as opaque numeric codes chosen by the
/// embedding input layer.
#[derive(Clone, Copy, Debug, PartialEq, Eq, Structural)]
pub struct MoveKeys {
    pub cw: u32,
    pub ccw: u32,
}

/// `a` wrapped into `[0, TAU_MICRORAD)`.
pub open spec fn wrap_angle(a: int) -> int {
    a % (TAU_MICRORAD as int)
}

/// Wraps an accumulated angle into one turn. Exactly the mathematical
/// modulus, which for spec integers is always non-negative.
pub fn wrap_angle_i64(a: i64) -> (r: i64)
    requires
        -4_000_000_000 <= a <= 4_000_000_000,
    ensures
        r == wrap_angle(a as int),
        0 <= r < TAU_MICRORAD,
{
    let m = TAU_MICRORAD;
    if a >= 0 {
        let r = a % m;
        assert(r == wrap_angle(a as int) && 0 <= r < TAU_MICRORAD) by {
            lemma_mod_bound(a as int, m as int);
        }
        r
    } else {
        let k = (-a) % m;
        proof {
            lemma_mod_bound(-a as int, m as int);
            lemma_fundamental_div_mod(-a as int, m as int);
            // a == -m * q - k, so a + m * (q + 1) == m - k, and the
            // modulus is unchanged by adding multiples of m.
            let q = (-a as int) / (m as int);
            lemma_mod_multiples_vanish(-(q + 1), a as int, m as int);
            assert(a as int + (q + 1) * (m as int) == (m as int) - k) by (nonlinear_arith)
                requires
                    -a as int == (m as int) * q + k,
            ;
            if k != 0 {
                lemma_mod_bound((m as int) - k, m as int);
                assert(((m as int) - k) % (m as int) == (m as int) - k) by {
                    vstd::arithmetic::div_mod::lemma_small_mod((m - k) as nat, m as nat);
                }
            } else {
                assert(((m as int) - k) % (m as int) == 0) by {
                    vstd::arithmetic::div_mod::lemma_mod_self_0(m as int);
                }
            }
        }
        if k == 0 {
            0
        } else {
            m - k
        }
    }
}

/// The pixels a curve travels on one axis in one tick: velocity times the
/// tick length times the axis component of the heading unit vector,
/// rounded to the grid. `u` is scaled by [`DIR_SCALE`], `dt` is in
/// milliseconds, so the scale divided out is `10^9`.
pub open spec fn displacement(v: int, dt: int, u: int) -> int {
    round_div(v * dt * u, 1_000_000_000)
}

/// Magnitude bound for [`displacement`]: at most `10^8` pixels under the
/// entity's velocity, tick-length and unit-vector bounds.
pub proof fn lemma_displacement_bound(v: int, dt: int, u: int)
    requires
        -VEL_LIMIT <= v <= VEL_LIMIT,
        0 <= dt <= MAX_TICK_MS,
        -DIR_SCALE <= u <= DIR_SCALE,
    ensures
        -100_000_000 <= displacement(v, dt, u) <= 100_000_000,
{
    let n = v * dt * u;
    assert(-100_000_000_000 <= v * dt <= 100_000_000_000) by (nonlinear_arith)
        requires
            -1_000_000 <= v <= 1_000_000,
            0 <= dt <= 100_000,
    ;
    assert(-100_000_000_000_000_000 <= n <= 100_000_000_000_000_000) by (nonlinear_arith)
        requires
            n == (v * dt) * u,
            -100_000_000_000 <= v * dt <= 100_000_000_000,
            -1_000_000 <= u <= 1_000_000,
    ;
    let m = 1_000_000_000;
    if n >= 0 {
        assert(round_div(n, m) == (2 * n + m) / (2 * m));
        assert(0 <= (2 * n + m) / (2 * m) <= 100_000_000) by (nonlinear_arith)
            requires
                0 <= n <= 100_000_000_000_000_000,
                m == 1_000_000_000,
        ;
    } else {
        assert(round_div(n, m) == -((2 * -n + m) / (2 * m)));
        assert(0 <= (2 * -n + m) / (2 * m) <= 100_000_000) by (nonlinear_arith)
            requires
                -100_000_000_000_000_000 <= n < 0,
                m == 1_000_000_000,
        ;
    }
}

/// `v` clamped into the position box.
pub open spec fn clamp_pos(v: int) -> int {
    if v > POS_LIMIT {
        POS_LIMIT as int
    } else if v < -POS_LIMIT {
        -POS_LIMIT as int
    } else {
        v
    }
}

/// A single player's moving entity and its trail.
#[derive(Debug)]
pub struct Curve {
    /// Index into the player array: who this curve belongs to.
    pub player_id: usize,
    /// Where the curve is located.
    pub position: Point,
    /// Heading in microradians, always within one turn.
    pub rotation: i64,
    /// How fast the curve is moving, pixels per second.
    pub velocity: i64,
    /// How much the heading changes per tick while a key is held.
    pub rotation_speed: i64,
    /// Thickness level, sizing the head's and the trail's collision boxes.
    pub girth: Girth,
    /// The key codes steering this curve.
    pub move_keys: MoveKeys,
    /// How long the trail keeps drawing before the next gap, ms.
    pub trail_fuse: u64,
    /// When the trail last toggled, a timestamp of the injected clock.
    pub trail_ts: u64,
    /// Whether the trail is currently drawn. While it is not, the curve
    /// is invulnerable to every collision check.
    pub trail_active: bool,
    /// The trail history, oldest first, acting as a collidable obstacle.
    pub lines: Vec<Line>,
    /// False once the curve has been eliminated this round.
    pub alive: bool,
    /// Display colour, an opaque packed value for the renderer.
    pub color: u32,
}

impl Curve {
    /// The machine-level bounds every curve maintains.
    pub open spec fn wf(self) -> bool {
        &&& self.position.in_range(POS_LIMIT as int)
        &&& 0 <= self.rotation < TAU_MICRORAD
        &&& -VEL_LIMIT <= self.velocity <= VEL_LIMIT
        &&& -ROT_SPEED_LIMIT <= self.rotation_speed <= ROT_SPEED_LIMIT
        &&& forall|i: int|
            0 <= i < self.lines@.len() ==> (#[trigger] self.lines@[i]).in_range(TRAIL_LIMIT as int)
                && self.lines@[i].points@.len() >= 1
    }

    /// A fresh fuse for the next trail gap, drawn uniformly from the
    /// configured interval.
    pub fn new_trail_countdown() -> (f: u64)
        ensures
            TRAIL_SKIP_MIN <= f < TRAIL_SKIP_MAX,
    {
        rand_u64_range(TRAIL_SKIP_MIN, TRAIL_SKIP_MAX)
    }

    /// A new curve at a uniformly random position inside `bounds`, with a
    /// uniformly random heading, an empty trail and default girth and
    /// rotation speed.
    pub fn new_random_pos(
        player_id: usize,
        bounds: crate::kurve::ArenaBounds,
        mv_keys: MoveKeys,
        color: u32,
        alive: bool,
        velocity: i64,
        now: u64,
    ) -> (c: Curve)
        requires
            bounds.wf(),
            -VEL_LIMIT <= velocity <= VEL_LIMIT,
        ensures
            c.wf(),
            c.player_id == player_id,
            bounds.x_min <= c.position.x < bounds.x_max,
            bounds.y_min <= c.position.y < bounds.y_max,
            c.velocity == velocity,
            c.rotation_speed == DEFAULT_ROTATION,
            c.girth == Girth::Normal,
            c.move_keys == mv_keys,
            c.lines@.len() == 0,
            TRAIL_SKIP_MIN <= c.trail_fuse < TRAIL_SKIP_MAX,
            c.trail_ts == now,
            c.trail_active,
            c.alive == alive,
            c.color == color,
    {
        let position = bounds.random_pos();
        let rotation = rand_i64_range(0, TAU_MICRORAD);
        Curve {
            player_id,
            position,
            rotation,
            velocity,
            rotation_speed: DEFAULT_ROTATION,
            girth: Girth::Normal,
            move_keys: mv_keys,
            trail_fuse: Curve::new_trail_countdown(),
            trail_ts: now,
            trail_active: true,
            lines: Vec::new(),
            alive,
            color,
        }
    }

    /// The heading after one tick of held keys: the rotation speed added
    /// while clockwise is held, subtracted while counter-clockwise is
    /// held, wrapped into one turn. Held-key semantics: every tick of a
    /// hold turns again.
    pub open spec fn spec_rotated(self, ccw: bool, cw: bool) -> int {
        wrap_angle(
            self.rotation + (if cw {
                self.rotation_speed as int
            } else {
                0
            }) - (if ccw {
                self.rotation_speed as int
            } else {
                0
            }),
        )
    }

    /// Turns the curve according to which steering keys are held.
    pub fn rotate(&mut self, ccw: bool, cw: bool)
        requires
            old(self).wf(),
        ensures
            final(self).rotation == old(self).spec_rotated(ccw, cw),
            *final(self) == (Curve { rotation: final(self).rotation, ..*old(self) }),
            final(self).wf(),
    {
        let mut delta: i64 = 0;
        if cw {
            delta = delta + self.rotation_speed;
        }
        if ccw {
            delta = delta - self.rotation_speed;
        }
        self.rotation = wrap_angle_i64(self.rotation + delta);
    }

    /// The position one tick ahead along the heading vector `(ux, uy)`,
    /// uncommitted: what the collision detector probes.
    pub fn next_pos(&self, dt_ms: u64, ux: i64, uy: i64) -> (p: Point)
        requires
            self.wf(),
            dt_ms <= MAX_TICK_MS,
            -DIR_SCALE <= ux <= DIR_SCALE,
            -DIR_SCALE <= uy <= DIR_SCALE,
        ensures
            p.x == self.position.x + displacement(self.velocity as int, dt_ms as int, ux as int),
            p.y == self.position.y + displacement(self.velocity as int, dt_ms as int, uy as int),
            p.in_range(TRAIL_LIMIT as int),
    {
        proof {
            lemma_displacement_bound(self.velocity as int, dt_ms as int, ux as int);
            lemma_displacement_bound(self.velocity as int, dt_ms as int, uy as int);
        }
        let v = self.velocity;
        let d = dt_ms as i64;
        proof {
            assert(-100_000_000_000 <= v * d <= 100_000_000_000) by (nonlinear_arith)
                requires
                    -1_000_000 <= v <= 1_000_000,
                    0 <= d <= 100_000,
            ;
        }
        let vd = v * d;
        proof {
            assert(-100_000_000_000_000_000 <= vd * ux <= 100_000_000_000_000_000
                && -100_000_000_000_000_000 <= vd * uy <= 100_000_000_000_000_000)
                by (nonlinear_arith)
                requires
                    -100_000_000_000 <= vd <= 100_000_000_000,
                    -1_000_000 <= ux <= 1_000_000,
                    -1_000_000 <= uy <= 1_000_000,
            ;
        }
        let dx = crate::point::round_div_i64(vd * ux, 1_000_000_000);
        let dy = crate::point::round_div_i64(vd * uy, 1_000_000_000);
        Point { x: self.position.x + dx, y: self.position.y + dy }
    }

    /// Commits the same move that [`Curve::next_pos`] probes, clamping
    /// into the position box.
    pub fn mv(&mut self, dt_ms: u64, ux: i64, uy: i64)
        requires
            old(self).wf(),
            dt_ms <= MAX_TICK_MS,
            -DIR_SCALE <= ux <= DIR_SCALE,
            -DIR_SCALE <= uy <= DIR_SCALE,
        ensures
            final(self).position.x == clamp_pos(
                old(self).position.x + displacement(
                    old(self).velocity as int,
                    dt_ms as int,
                    ux as int,
                ),
            ),
            final(self).position.y == clamp_pos(
                old(self).position.y + displacement(
                    old(self).velocity as int,
                    dt_ms as int,
                    uy as int,
                ),
            ),
            *final(self) == (Curve { position: final(self).position, ..*old(self) }),
            final(self).wf(),
    {
        let p = self.next_pos(dt_ms, ux, uy);
        let x = if p.x > POS_LIMIT {
            POS_LIMIT
        } else if p.x < -POS_LIMIT {
            -POS_LIMIT
        } else {
            p.x
        };
        let y = if p.y > POS_LIMIT {
            POS_LIMIT
        } else if p.y < -POS_LIMIT {
            -POS_LIMIT
        } else {
            p.y
        };
        self.position = Point { x, y };
    }

    /// The trail gap fires this tick: the fuse has run out.
    pub open spec fn gap_fires(self, now: int) -> bool {
        now - self.trail_ts > self.trail_fuse
    }

    /// The trail comes back this tick: the invulnerability window after
    /// the gap's start has passed. Evaluated after the gap step, so on the
    /// very tick a gap starts nothing re-enables.
    pub open spec fn reenable_fires(self, now: int) -> bool {
        if self.gap_fires(now) {
            false
        } else {
            now - self.trail_ts > INV_DURATION && !self.trail_active
        }
    }

    /// Whether the trail is drawn once this tick's toggles have settled.
    pub open spec fn trail_active_after(self, now: int) -> bool {
        if self.reenable_fires(now) {
            true
        } else if self.gap_fires(now) {
            false
        } else {
            self.trail_active
        }
    }

    /// Advances the trail lifecycle and, while the trail is drawn,
    /// appends this tick's interpolated segment.
    ///
    /// Trail gating: a segment is appended exactly when the trail is
    /// active once this tick's toggles have settled, and the appended
    /// segment is the interpolation from the current position to the
    /// probed next position at the current girth.
    pub fn tick_trail(&mut self, now: u64, dt_ms: u64, ux: i64, uy: i64)
        requires
            old(self).wf(),
            old(self).trail_ts <= now,
            dt_ms <= MAX_TICK_MS,
            -DIR_SCALE <= ux <= DIR_SCALE,
            -DIR_SCALE <= uy <= DIR_SCALE,
    ensures
            final(self).trail_active == old(self).trail_active_after(now as int),
            final(self).trail_ts == if old(self).gap_fires(now as int) || old(self).reenable_fires(
                now as int,
            ) {
                now
            } else {
                old(self).trail_ts
            },
            !old(self).reenable_fires(now as int) ==> final(self).trail_fuse == old(
                self,
            ).trail_fuse,
            old(self).reenable_fires(now as int) ==> TRAIL_SKIP_MIN <= final(self).trail_fuse
                < TRAIL_SKIP_MAX,
            final(self).lines@.len() == old(self).lines@.len() + (if final(self).trail_active {
                1int
            } else {
                0int
            }),
            forall|i: int|
                0 <= i < old(self).lines@.len() ==> final(self).lines@[i] == old(self).lines@[i],
            final(self).trail_active ==> ({
                let l = final(self).lines@.last();
                let target = Point {
                    x: (old(self).position.x + displacement(
                        old(self).velocity as int,
                        dt_ms as int,
                        ux as int,
                    )) as i64,
                    y: (old(self).position.y + displacement(
                        old(self).velocity as int,
                        dt_ms as int,
                        uy as int,
                    )) as i64,
                };
                &&& l.girth == old(self).girth
                &&& l.points@.len() == num_steps(old(self).position, target)
                &&& forall|i: int|
                    0 <= i < l.points@.len() ==> l.points@[i] == interp_point(
                        old(self).position,
                        target,
                        i,
                    )
                &&& l.points@[0] == old(self).position
            }),
            *final(self) == (Curve {
                trail_active: final(self).trail_active,
                trail_ts: final(self).trail_ts,
                trail_fuse: final(self).trail_fuse,
                lines: final(self).lines,
                ..*old(self)
            }),
            final(self).wf(),
    {
        // Gap: the fuse ran out, stop drawing and start the
        // invulnerability window.
        if now - self.trail_ts > self.trail_fuse {
            self.trail_active = false;
            self.trail_ts = now;
        }
        // Re-enable: the window has passed; draw again on a fresh fuse.
        if now - self.trail_ts > INV_DURATION && !self.trail_active {
            self.trail_active = true;
            self.trail_fuse = Curve::new_trail_countdown();
            self.trail_ts = now;
        }
        if self.trail_active {
            let target = self.next_pos(dt_ms, ux, uy);
            let line = Line::interpolate(self.position, target, self.girth);
            proof {
                assert forall|i: int| 0 <= i < line.points@.len() implies (#[trigger] line.points@[i])
                    .in_range(TRAIL_LIMIT as int) by {
                    assert(point_in_box(self.position, target, line.points@[i]));
                }
            }
            self.lines.push(line);
        }
    }
}

} // verus!
