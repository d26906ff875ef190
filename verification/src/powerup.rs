//! Transient power-ups: spawned pickups, the modifier kinds, their timed
//! application and the exact reversal when a timeout expires.

use vstd::prelude::*;

use crate::curve::Curve;
use crate::kurve::{POWERMOD_HALF_SIZE, POS_LIMIT, ROT_SPEED_LIMIT, TRAIL_SKIP_MAX, TRAIL_SKIP_MIN, VEL_LIMIT};
use crate::point::{Girth, Point};

verus! {

/// How much a speed modifier changes the velocity, pixels per second.
pub const VELO: i64 = 10;

/// How much a rotation modifier changes the rotation speed, microradians.
pub const ROTUP: i64 = 10_000;

/// All possible variations for a power up/down.
#[derive(Clone, Copy, Debug, PartialEq, Eq, Structural)]
pub enum PowerModifier {
    /// Increases velocity.
    SpeedUp,
    /// Increases rotation speed.
    RotUp,
    /// Makes the curve invulnerable by suspending its trail.
    Invulnerability,
    /// Makes the curve thinner.
    Anorexia,
    /// Decreases velocity.
    SpeedDown,
    /// Decreases rotation speed.
    RotDown,
    /// Makes the curve fatter.
    Chungus,
}

/// A spawned, not yet collected pickup: a position and a modifier kind.
#[derive(Clone, Copy, Debug, PartialEq, Eq, Structural)]
pub struct PowerMod {
    pub point: Point,
    pub ty: PowerModifier,
}

impl PowerMod {
    /// A pickup of kind `ty` at `point`.
    pub fn new(point: Point, ty: PowerModifier) -> (p: PowerMod)
        ensures
            p.point == point,
            p.ty == ty,
    {
        PowerMod { point, ty }
    }

    /// The pickup's square bounds: `[x_min, x_max, y_min, y_max]`, each
    /// side half the fixed pickup size from the centre.
    pub fn bounds(&self) -> (r: [i64; 4])
        requires
            self.point.in_range(POS_LIMIT as int),
        ensures
            r@[0] == self.point.x - POWERMOD_HALF_SIZE,
            r@[1] == self.point.x + POWERMOD_HALF_SIZE,
            r@[2] == self.point.y - POWERMOD_HALF_SIZE,
            r@[3] == self.point.y + POWERMOD_HALF_SIZE,
    {
        [
            self.point.x - POWERMOD_HALF_SIZE,
            self.point.x + POWERMOD_HALF_SIZE,
            self.point.y - POWERMOD_HALF_SIZE,
            self.point.y + POWERMOD_HALF_SIZE,
        ]
    }
}

/// An active effect instance, waiting to be reversed: which curve, which
/// kind, and when it was applied.
#[derive(Clone, Copy, Debug, PartialEq, Eq, Structural)]
pub struct PowerTimeout {
    pub curve: usize,
    pub started: u64,
    pub ty: PowerModifier,
}

/// Velocity one speed step up, saturating at the velocity bound.
pub open spec fn vel_up(v: int) -> int {
    if v + VELO <= VEL_LIMIT {
        v + VELO
    } else {
        v
    }
}

/// Velocity one speed step down, saturating at the velocity bound.
pub open spec fn vel_down(v: int) -> int {
    if v - VELO >= -VEL_LIMIT {
        v - VELO
    } else {
        v
    }
}

/// Rotation speed one step up, saturating at the rotation-speed bound.
pub open spec fn rot_up(r: int) -> int {
    if r + ROTUP <= ROT_SPEED_LIMIT {
        r + ROTUP
    } else {
        r
    }
}

/// Rotation speed one step down, saturating at the rotation-speed bound.
pub open spec fn rot_down(r: int) -> int {
    if r - ROTUP >= -ROT_SPEED_LIMIT {
        r - ROTUP
    } else {
        r
    }
}

/// The curve after `kind` is applied at time `now`: the exact mutation of
/// the one attribute the kind touches.
pub open spec fn spec_apply(kind: PowerModifier, c: Curve, now: int) -> Curve {
    match kind {
        PowerModifier::SpeedUp => Curve { velocity: vel_up(c.velocity as int) as i64, ..c },
        PowerModifier::SpeedDown => Curve { velocity: vel_down(c.velocity as int) as i64, ..c },
        PowerModifier::RotUp => Curve {
            rotation_speed: rot_up(c.rotation_speed as int) as i64,
            ..c
        },
        PowerModifier::RotDown => Curve {
            rotation_speed: rot_down(c.rotation_speed as int) as i64,
            ..c
        },
        PowerModifier::Anorexia => Curve { girth: c.girth.spec_decrement(), ..c },
        PowerModifier::Chungus => Curve { girth: c.girth.spec_increment(), ..c },
        PowerModifier::Invulnerability => Curve {
            trail_active: false,
            trail_ts: now as u64,
            trail_fuse: u64::MAX,
            ..c
        },
    }
}

/// The curve after `kind`'s effect is reversed at time `now`. Reversal is
/// the exact inverse mutation; restoring the trail draws a fresh fuse,
/// which is passed in as `new_fuse`.
pub open spec fn spec_remove(kind: PowerModifier, c: Curve, now: int, new_fuse: int) -> Curve {
    match kind {
        PowerModifier::SpeedUp => Curve { velocity: vel_down(c.velocity as int) as i64, ..c },
        PowerModifier::SpeedDown => Curve { velocity: vel_up(c.velocity as int) as i64, ..c },
        PowerModifier::RotUp => Curve {
            rotation_speed: rot_down(c.rotation_speed as int) as i64,
            ..c
        },
        PowerModifier::RotDown => Curve {
            rotation_speed: rot_up(c.rotation_speed as int) as i64,
            ..c
        },
        PowerModifier::Anorexia => Curve { girth: c.girth.spec_increment(), ..c },
        PowerModifier::Chungus => Curve { girth: c.girth.spec_decrement(), ..c },
        PowerModifier::Invulnerability => Curve {
            trail_active: true,
            trail_ts: now as u64,
            trail_fuse: new_fuse as u64,
            ..c
        },
    }
}

impl PowerModifier {
    /// Mutates the collecting curve's attribute for this kind: speed or
    /// rotation speed stepped with saturation at the machine bounds,
    /// girth stepped with saturation at the enumeration's ends, or the
    /// trail suspended for invulnerability.
    pub fn apply(&self, curve: &mut Curve, now: u64)
        requires
            old(curve).wf(),
        ensures
            *final(curve) == spec_apply(*self, *old(curve), now as int),
            final(curve).wf(),
    {
        match self {
            PowerModifier::SpeedUp => {
                if curve.velocity + VELO <= VEL_LIMIT {
                    curve.velocity = curve.velocity + VELO;
                }
            },
            PowerModifier::SpeedDown => {
                if curve.velocity - VELO >= -VEL_LIMIT {
                    curve.velocity = curve.velocity - VELO;
                }
            },
            PowerModifier::RotUp => {
                if curve.rotation_speed + ROTUP <= ROT_SPEED_LIMIT {
                    curve.rotation_speed = curve.rotation_speed + ROTUP;
                }
            },
            PowerModifier::RotDown => {
                if curve.rotation_speed - ROTUP >= -ROT_SPEED_LIMIT {
                    curve.rotation_speed = curve.rotation_speed - ROTUP;
                }
            },
            PowerModifier::Anorexia => {
                curve.girth = curve.girth.decrement();
            },
            PowerModifier::Chungus => {
                curve.girth = curve.girth.increment();
            },
            PowerModifier::Invulnerability => {
                curve.trail_active = false;
                curve.trail_ts = now;
                curve.trail_fuse = u64::MAX;
            },
        }
    }

    /// Reverses this kind's effect with the exact inverse mutation;
    /// restoring the trail after invulnerability draws a fresh fuse.
    pub fn remove(&self, curve: &mut Curve, now: u64)
        requires
            old(curve).wf(),
        ensures
            *final(curve) == spec_remove(
                *self,
                *old(curve),
                now as int,
                final(curve).trail_fuse as int,
            ),
            *self is Invulnerability ==> TRAIL_SKIP_MIN <= final(curve).trail_fuse
                < TRAIL_SKIP_MAX,
            !(*self is Invulnerability) ==> final(curve).trail_fuse == old(curve).trail_fuse,
            final(curve).wf(),
    {
        match self {
            PowerModifier::SpeedUp => {
                if curve.velocity - VELO >= -VEL_LIMIT {
                    curve.velocity = curve.velocity - VELO;
                }
            },
            PowerModifier::SpeedDown => {
                if curve.velocity + VELO <= VEL_LIMIT {
                    curve.velocity = curve.velocity + VELO;
                }
            },
            PowerModifier::RotUp => {
                if curve.rotation_speed - ROTUP >= -ROT_SPEED_LIMIT {
                    curve.rotation_speed = curve.rotation_speed - ROTUP;
                }
            },
            PowerModifier::RotDown => {
                if curve.rotation_speed + ROTUP <= ROT_SPEED_LIMIT {
                    curve.rotation_speed = curve.rotation_speed + ROTUP;
                }
            },
            PowerModifier::Anorexia => {
                curve.girth = curve.girth.increment();
            },
            PowerModifier::Chungus => {
                curve.girth = curve.girth.decrement();
            },
            PowerModifier::Invulnerability => {
                curve.trail_active = true;
                curve.trail_ts = now;
                curve.trail_fuse = Curve::new_trail_countdown();
            },
        }
    }
}

/// Apply/reverse round trip: for every modifier kind, reversing right
/// after applying restores every attribute the kind touches — velocity,
/// rotation speed, girth and the trail-active flag — provided the
/// attribute was not pinned at a saturation bound (a speed at the
/// velocity cap, a girth already at the end of the enumeration) and the
/// trail was drawing when invulnerability arrived.
pub proof fn lemma_power_round_trip(
    kind: PowerModifier,
    c: Curve,
    now1: int,
    now2: int,
    new_fuse: int,
)
    requires
        -VEL_LIMIT + VELO <= c.velocity <= VEL_LIMIT - VELO,
        -ROT_SPEED_LIMIT + ROTUP <= c.rotation_speed <= ROT_SPEED_LIMIT - ROTUP,
        kind is Chungus ==> c.girth != Girth::Chungus,
        kind is Anorexia ==> c.girth != Girth::Tiny,
        c.trail_active,
    ensures
        ({
            let r = spec_remove(kind, spec_apply(kind, c, now1), now2, new_fuse);
            &&& r.velocity == c.velocity
            &&& r.rotation_speed == c.rotation_speed
            &&& r.girth == c.girth
            &&& r.trail_active == c.trail_active
            &&& r.position == c.position
            &&& r.alive == c.alive
            &&& r.lines == c.lines
        }),
{
}

} // verus!
