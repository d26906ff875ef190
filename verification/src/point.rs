//! Geometry kernel: grid points, interpolated line segments, girth levels
//! and the nine-point sampled bounding box used by every collision query.
//!
//! All coordinates live on an integer pixel grid. Collision testing is
//! exact equality of rounded coordinates, so the kernel rounds once, here,
//! and every consumer compares plain integers.

use vstd::prelude::*;

verus! {

/// Largest coordinate magnitude the geometry kernel accepts. Keeps every
/// intermediate product of the interpolation walk inside `i64`.
pub const COORD_LIMIT: i64 = 1_000_000_000;

/// A position on the integer pixel grid.
#[derive(Clone, Copy, Debug, PartialEq, Eq, Structural)]
pub struct Point {
    pub x: i64,
    pub y: i64,
}

impl Point {
    /// Both coordinates within `lim` in magnitude.
    pub open spec fn in_range(self, lim: int) -> bool {
        -lim <= self.x <= lim && -lim <= self.y <= lim
    }
}

/// Discrete thickness level of a curve, smallest to largest. It sizes both
/// the moving head's bounding box and the boxes drawn around trail points.
#[derive(Clone, Copy, Debug, PartialEq, Eq, Structural)]
pub enum Girth {
    Tiny,
    Small,
    Normal,
    Large,
    Larger,
    Chungus,
}

impl Girth {
    /// Position of the level in the order, `0` for the thinnest.
    pub open spec fn level(self) -> int {
        match self {
            Girth::Tiny => 0,
            Girth::Small => 1,
            Girth::Normal => 2,
            Girth::Large => 3,
            Girth::Larger => 4,
            Girth::Chungus => 5,
        }
    }

    /// Bounding radius of the moving head at this girth.
    pub open spec fn spec_radius(self) -> int {
        match self {
            Girth::Tiny => 1,
            Girth::Small => 2,
            Girth::Normal => 2,
            Girth::Large => 4,
            Girth::Larger => 6,
            Girth::Chungus => 8,
        }
    }

    /// Bounding radius of a stored trail point: one less than the head's,
    /// never negative.
    pub open spec fn spec_trail_radius(self) -> int {
        if self.spec_radius() >= 1 {
            self.spec_radius() - 1
        } else {
            0
        }
    }

    /// The smallest girth.
    pub fn min() -> (g: Girth)
        ensures
            g == Girth::Tiny,
            g.level() == 0,
    {
        Girth::Tiny
    }

    /// The largest girth.
    pub fn max() -> (g: Girth)
        ensures
            g == Girth::Chungus,
            g.level() == 5,
    {
        Girth::Chungus
    }

    /// Bounding radius of the moving head at this girth.
    pub fn radius(&self) -> (r: i64)
        ensures
            r == self.spec_radius(),
            1 <= r <= 8,
    {
        match self {
            Girth::Tiny => 1,
            Girth::Small => 2,
            Girth::Normal => 2,
            Girth::Large => 4,
            Girth::Larger => 6,
            Girth::Chungus => 8,
        }
    }

    /// Bounding radius of a stored trail point at this girth.
    pub fn trail_radius(&self) -> (r: i64)
        ensures
            r == self.spec_trail_radius(),
            0 <= r <= 7,
    {
        match self {
            Girth::Tiny => 0,
            Girth::Small => 1,
            Girth::Normal => 1,
            Girth::Large => 3,
            Girth::Larger => 5,
            Girth::Chungus => 7,
        }
    }

    /// The next girth up, saturating at the largest level.
    pub open spec fn spec_increment(self) -> Girth {
        match self {
            Girth::Tiny => Girth::Small,
            Girth::Small => Girth::Normal,
            Girth::Normal => Girth::Large,
            Girth::Large => Girth::Larger,
            Girth::Larger => Girth::Chungus,
            Girth::Chungus => Girth::Chungus,
        }
    }

    /// The next girth down, saturating at the smallest level.
    pub open spec fn spec_decrement(self) -> Girth {
        match self {
            Girth::Tiny => Girth::Tiny,
            Girth::Small => Girth::Tiny,
            Girth::Normal => Girth::Small,
            Girth::Large => Girth::Normal,
            Girth::Larger => Girth::Large,
            Girth::Chungus => Girth::Larger,
        }
    }

    /// One level thicker, saturating at [`Girth::max`].
    pub fn increment(&self) -> (g: Girth)
        ensures
            g == self.spec_increment(),
            self.level() < 5 ==> g.level() == self.level() + 1,
            self.level() == 5 ==> g == *self,
    {
        match self {
            Girth::Tiny => Girth::Small,
            Girth::Small => Girth::Normal,
            Girth::Normal => Girth::Large,
            Girth::Large => Girth::Larger,
            Girth::Larger => Girth::Chungus,
            Girth::Chungus => Girth::Chungus,
        }
    }

    /// One level thinner, saturating at [`Girth::min`].
    pub fn decrement(&self) -> (g: Girth)
        ensures
            g == self.spec_decrement(),
            self.level() > 0 ==> g.level() == self.level() - 1,
            self.level() == 0 ==> g == *self,
    {
        match self {
            Girth::Tiny => Girth::Tiny,
            Girth::Small => Girth::Tiny,
            Girth::Normal => Girth::Small,
            Girth::Large => Girth::Normal,
            Girth::Larger => Girth::Large,
            Girth::Chungus => Girth::Larger,
        }
    }
}

impl Default for Girth {
    /// The default girth is the middle level.
    fn default() -> (g: Girth)
        ensures
            g == Girth::Normal,
    {
        Girth::Normal
    }
}

/// Girth saturation: incrementing the largest girth stays at the largest,
/// decrementing the smallest stays at the smallest, so repeated increments
/// (or decrements) can never leave the enumeration.
pub proof fn lemma_girth_saturation()
    ensures
        Girth::Chungus.spec_increment() == Girth::Chungus,
        Girth::Tiny.spec_decrement() == Girth::Tiny,
        forall|g: Girth| 0 <= #[trigger] g.spec_increment().level() <= 5,
        forall|g: Girth| 0 <= #[trigger] g.spec_decrement().level() <= 5,
        forall|g: Girth| g.level() == 5 ==> #[trigger] g.spec_increment() == g,
        forall|g: Girth| g.level() == 0 ==> #[trigger] g.spec_decrement() == g,
{
}

/// Rounded division `n / m` to the nearest integer, halves away from zero.
/// Matches how sampled float coordinates are rounded to the pixel grid.
pub open spec fn round_div(n: int, m: int) -> int
    recommends
        m >= 1,
{
    if n >= 0 {
        (2 * n + m) / (2 * m)
    } else {
        -((2 * -n + m) / (2 * m))
    }
}

/// Executable rounded division, exactly [`round_div`].
pub fn round_div_i64(n: i64, m: i64) -> (r: i64)
    requires
        1 <= m <= 4_000_000_000,
        -4_000_000_000_000_000_000 <= n <= 4_000_000_000_000_000_000,
    ensures
        r == round_div(n as int, m as int),
{
    if n >= 0 {
        (2 * n + m) / (2 * m)
    } else {
        -((2 * -n + m) / (2 * m))
    }
}

/// Number of unit steps the interpolation walk takes from `o` to `t`:
/// the dominant axis distance, at least one.
pub open spec fn num_steps(o: Point, t: Point) -> int {
    let dx = if t.x - o.x >= 0 {
        t.x - o.x
    } else {
        o.x - t.x
    };
    let dy = if t.y - o.y >= 0 {
        t.y - o.y
    } else {
        o.y - t.y
    };
    let m = if dx >= dy {
        dx
    } else {
        dy
    };
    if m >= 1 {
        m
    } else {
        1
    }
}

/// `p` lies inside the axis-aligned box spanned by `o` and `t`.
pub open spec fn point_in_box(o: Point, t: Point, p: Point) -> bool {
    &&& if o.x <= t.x {
        o.x <= p.x <= t.x
    } else {
        t.x <= p.x <= o.x
    }
    &&& if o.y <= t.y {
        o.y <= p.y <= t.y
    } else {
        t.y <= p.y <= o.y
    }
}

/// The `i`-th sample of the walk from `o` towards `t`: the exact
/// fractional position rounded to the grid on each axis.
pub open spec fn interp_point(o: Point, t: Point, i: int) -> Point {
    let m = num_steps(o, t);
    Point {
        x: (o.x + round_div(i * (t.x - o.x), m)) as i64,
        y: (o.y + round_div(i * (t.y - o.y), m)) as i64,
    }
}

/// An ordered run of grid points sampled between two positions one tick
/// apart, tagged with the girth active when it was drawn. Immutable once
/// created; owned by the curve whose trail it extends.
#[derive(Debug)]
pub struct Line {
    pub points: Vec<Point>,
    pub girth: Girth,
}

impl Line {
    /// Every sample within `lim` in magnitude.
    pub open spec fn in_range(self, lim: int) -> bool {
        forall|i: int| 0 <= i < self.points@.len() ==> (#[trigger] self.points@[i]).in_range(lim)
    }

    /// Walks from `origin` towards `target` in unit steps along the
    /// dominant axis, rounding every sample to the grid. A zero-length
    /// move still yields one sample, so a segment is never empty.
    pub fn interpolate(origin: Point, target: Point, girth: Girth) -> (l: Line)
        requires
            origin.in_range(COORD_LIMIT as int),
            target.in_range(COORD_LIMIT as int),
        ensures
            l.girth == girth,
            l.points@.len() == num_steps(origin, target),
            forall|i: int|
                0 <= i < l.points@.len() ==> l.points@[i] == interp_point(origin, target, i),
            forall|i: int|
                0 <= i < l.points@.len() ==> point_in_box(origin, target, #[trigger] l.points@[i]),
            l.points@[0] == origin,
    {
        let d_x = target.x - origin.x;
        let d_y = target.y - origin.y;
        let a_x = if d_x >= 0 {
            d_x
        } else {
            -d_x
        };
        let a_y = if d_y >= 0 {
            d_y
        } else {
            -d_y
        };
        let m0 = if a_x >= a_y {
            a_x
        } else {
            a_y
        };
        let m = if m0 >= 1 {
            m0
        } else {
            1
        };
        assert(m == num_steps(origin, target));

        let mut points: Vec<Point> = Vec::new();
        let mut i: i64 = 0;
        while i < m
            invariant
                0 <= i <= m,
                m == num_steps(origin, target),
                1 <= m <= 2 * COORD_LIMIT,
                d_x == target.x - origin.x,
                d_y == target.y - origin.y,
                origin.in_range(COORD_LIMIT as int),
                target.in_range(COORD_LIMIT as int),
                points@.len() == i,
                forall|k: int|
                    0 <= k < i ==> points@[k] == interp_point(origin, target, k),
                forall|k: int|
                    0 <= k < i ==> point_in_box(origin, target, #[trigger] points@[k]),
            decreases m - i,
        {
            proof {
                assert(i * d_x <= 4_000_000_000_000_000_000 && i * d_x
                    >= -4_000_000_000_000_000_000) by (nonlinear_arith)
                    requires
                        0 <= i <= 2_000_000_000,
                        -2_000_000_000 <= d_x <= 2_000_000_000,
                ;
                assert(i * d_y <= 4_000_000_000_000_000_000 && i * d_y
                    >= -4_000_000_000_000_000_000) by (nonlinear_arith)
                    requires
                        0 <= i <= 2_000_000_000,
                        -2_000_000_000 <= d_y <= 2_000_000_000,
                ;
                lemma_round_div_in_segment(d_x as int, i as int, m as int);
                lemma_round_div_in_segment(d_y as int, i as int, m as int);
            }
            let px = origin.x + round_div_i64(i * d_x, m);
            let py = origin.y + round_div_i64(i * d_y, m);
            points.push(Point { x: px, y: py });
            i = i + 1;
        }
        proof {
            let ms = num_steps(origin, target);
            assert(ms >= 1);
            assert(ms / (2 * ms) == 0) by (nonlinear_arith)
                requires
                    ms >= 1,
            ;
            assert(round_div(0, ms) == (2 * 0 + ms) / (2 * ms));
            assert(points@[0] == interp_point(origin, target, 0));
        }
        Line { points, girth }
    }
}

/// For a step index inside the walk, the rounded offset stays between
/// zero and the full axis distance `d` (inclusive, either sign).
pub proof fn lemma_round_div_in_segment(d: int, i: int, m: int)
    requires
        m >= 1,
        0 <= i < m,
    ensures
        d >= 0 ==> 0 <= round_div(i * d, m) <= d,
        d < 0 ==> d <= round_div(i * d, m) <= 0,
{
    if d >= 0 {
        assert(0 <= i * d) by (nonlinear_arith)
            requires 0 <= i && 0 <= d;
        assert(i * d <= (m - 1) * d) by (nonlinear_arith)
            requires i <= m - 1 && 0 <= d;
        let n = i * d;
        assert(round_div(n, m) == (2 * n + m) / (2 * m));
        assert(0 <= (2 * n + m) / (2 * m)) by (nonlinear_arith)
            requires 0 <= n && m >= 1;
        assert((2 * n + m) / (2 * m) <= d) by (nonlinear_arith)
            requires 0 <= n && n <= (m - 1) * d && m >= 1 && d >= 0;
    } else {
        assert(i * d <= 0) by (nonlinear_arith)
            requires 0 <= i && d < 0;
        assert((m - 1) * d <= i * d) by (nonlinear_arith)
            requires i <= m - 1 && d < 0;
        let n = i * d;
        if n == 0 {
            assert(round_div(0, m) == (2 * 0 + m) / (2 * m));
            assert(m / (2 * m) == 0) by (nonlinear_arith)
                requires m >= 1;
        } else {
            assert(round_div(n, m) == -((2 * -n + m) / (2 * m)));
            assert(0 <= (2 * -n + m) / (2 * m)) by (nonlinear_arith)
                requires n <= 0 && m >= 1;
            assert((2 * -n + m) / (2 * m) <= -d) by (nonlinear_arith)
                requires n <= 0 && (m - 1) * d <= n && m >= 1 && d < 0;
        }
    }
}

/// The nine sample points of the discretized collision hull around `c`
/// with radius `d`: the centre, then the ring corners and edge midpoints.
pub open spec fn bbox_points(c: Point, d: int) -> Seq<Point> {
    seq![
        c,
        Point { x: (c.x - d) as i64, y: (c.y - d) as i64 },
        Point { x: c.x, y: (c.y - d) as i64 },
        Point { x: (c.x + d) as i64, y: (c.y - d) as i64 },
        Point { x: (c.x + d) as i64, y: c.y },
        Point { x: (c.x + d) as i64, y: (c.y + d) as i64 },
        Point { x: c.x, y: (c.y + d) as i64 },
        Point { x: (c.x - d) as i64, y: (c.y + d) as i64 },
        Point { x: (c.x - d) as i64, y: c.y },
    ]
}

/// Nine grid points forming a square ring around a centre: the centre
/// itself plus eight points at `distance` on the cardinal and diagonal
/// directions. Recomputed for every query, never persisted.
#[derive(Clone, Copy, Debug)]
pub struct BoundingBox(pub [Point; 9]);

impl BoundingBox {
    /// Builds the sampled hull around `p`.
    pub fn new(p: Point, distance: i64) -> (b: BoundingBox)
        requires
            p.in_range(COORD_LIMIT as int),
            0 <= distance <= COORD_LIMIT,
        ensures
            b.0@ == bbox_points(p, distance as int),
            b.0@.len() == 9,
    {
        let d = distance;
        let b = BoundingBox(
            [
                p,
                Point { x: p.x - d, y: p.y - d },
                Point { x: p.x, y: p.y - d },
                Point { x: p.x + d, y: p.y - d },
                Point { x: p.x + d, y: p.y },
                Point { x: p.x + d, y: p.y + d },
                Point { x: p.x, y: p.y + d },
                Point { x: p.x - d, y: p.y + d },
                Point { x: p.x - d, y: p.y },
            ],
        );
        proof {
            assert(b.0@ =~= bbox_points(p, d as int));
        }
        b
    }

    /// The x projections of the nine sample points, in order.
    pub fn xs(&self) -> (r: [i64; 9])
        ensures
            forall|i: int| 0 <= i < 9 ==> r@[i] == (#[trigger] self.0@[i]).x,
    {
        let r = [
            self.0[0].x,
            self.0[1].x,
            self.0[2].x,
            self.0[3].x,
            self.0[4].x,
            self.0[5].x,
            self.0[6].x,
            self.0[7].x,
            self.0[8].x,
        ];
        r
    }

    /// The y projections of the nine sample points, in order.
    pub fn ys(&self) -> (r: [i64; 9])
        ensures
            forall|i: int| 0 <= i < 9 ==> r@[i] == (#[trigger] self.0@[i]).y,
    {
        let r = [
            self.0[0].y,
            self.0[1].y,
            self.0[2].y,
            self.0[3].y,
            self.0[4].y,
            self.0[5].y,
            self.0[6].y,
            self.0[7].y,
            self.0[8].y,
        ];
        r
    }
}

} // verus!
