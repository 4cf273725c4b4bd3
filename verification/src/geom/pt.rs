//! Points and directions.

use crate::num::{
    floor_sqrt, isqrt, lemma_floor_sqrt_monotone, lemma_floor_sqrt_of_square, lemma_scaled_bounds,
    lemma_scaled_neg, scale, scaled,
};
use vstd::prelude::*;

verus! {

/// Every point that the geometry works on has both coordinates within this
/// distance of the origin (about 1074 km).
pub const WORLD_LIMIT: i64 = 0x4000_0000;

/// The points of a map (centre lines of lanes and roads) stay within this
/// distance of the origin, so that what is built around them stays in the world.
pub const MAP_LIMIT: i64 = 0x2000_0000;

/// The largest distance by which a point is projected or a line is shifted
/// (about 1 km).
pub const MAX_DISTANCE: i64 = 0x10_0000;

/// A point of the plane, in millimetres.
#[derive(Clone, Copy, Debug, PartialEq, Eq, Structural)]
pub struct Pt2D {
    pub x: i64,
    pub y: i64,
}

/// A direction in the plane, held as a vector that points that way. Only the
/// direction of the vector matters, not its length; the zero vector stands
/// for "no direction".
#[derive(Clone, Copy, Debug, PartialEq, Eq, Structural)]
pub struct Angle {
    pub dx: i64,
    pub dy: i64,
}

impl Angle {
    /// Both components are small enough to be squared and summed in a `u64`.
    pub open spec fn valid(self) -> bool {
        -0x8000_0000 <= self.dx <= 0x8000_0000 && -0x8000_0000 <= self.dy <= 0x8000_0000
    }

    /// The length of the vector, rounded down.
    pub open spec fn spec_magnitude(self) -> nat {
        floor_sqrt((self.dx * self.dx + self.dy * self.dy) as nat)
    }

    /// The direction after `quarters` quarter turns (of 90 degrees each).
    pub open spec fn spec_rotate_quarters(self, quarters: int) -> Angle {
        if quarters % 4 == 0 {
            self
        } else if quarters % 4 == 1 {
            Angle { dx: (-self.dy) as i64, dy: self.dx }
        } else if quarters % 4 == 2 {
            Angle { dx: (-self.dx) as i64, dy: (-self.dy) as i64 }
        } else {
            Angle { dx: self.dy, dy: (-self.dx) as i64 }
        }
    }

    /// The reverse direction.
    pub open spec fn spec_opposite(self) -> Angle {
        Angle { dx: (-self.dx) as i64, dy: (-self.dy) as i64 }
    }

    /// The displacement of length `dist` in this direction, by components:
    /// each component of the vector scaled by `dist / |vector|` and rounded
    /// toward zero.
    pub open spec fn spec_offset(self, dist: int) -> (int, int) {
        (
            scaled(dist, self.dx as int, self.spec_magnitude() as int),
            scaled(dist, self.dy as int, self.spec_magnitude() as int),
        )
    }

    /// The direction of the vector `(dx, dy)`.
    pub fn new(dx: i64, dy: i64) -> (a: Angle)
        ensures
            a == (Angle { dx, dy }),
    {
        Angle { dx, dy }
    }

    /// The length of the vector, rounded down.
    pub fn magnitude(&self) -> (m: u64)
        requires
            self.valid(),
        ensures
            m == self.spec_magnitude(),
            m >= self.dx && m >= -self.dx && m >= self.dy && m >= -self.dy,
            m < 0x1_0000_0000,
    {
        let ax: u64 = if self.dx < 0 {
            (-self.dx) as u64
        } else {
            self.dx as u64
        };
        let ay: u64 = if self.dy < 0 {
            (-self.dy) as u64
        } else {
            self.dy as u64
        };
        assert(ax * ax <= 0x4000_0000_0000_0000 && ax * ax == self.dx * self.dx)
            by (nonlinear_arith)
            requires
                ax <= 0x8000_0000,
                ax == self.dx || ax == -self.dx,
        ;
        assert(ay * ay <= 0x4000_0000_0000_0000 && ay * ay == self.dy * self.dy)
            by (nonlinear_arith)
            requires
                ay <= 0x8000_0000,
                ay == self.dy || ay == -self.dy,
        ;
        proof {
            lemma_magnitude_covers(*self);
        }
        isqrt(ax * ax + ay * ay)
    }

    /// The direction after `quarters` quarter turns (of 90 degrees each).
    pub fn rotate_quarters(&self, quarters: u8) -> (a: Angle)
        requires
            self.valid(),
        ensures
            a == self.spec_rotate_quarters(quarters as int),
            a.valid(),
            a.spec_magnitude() == self.spec_magnitude(),
    {
        let q: u8 = quarters % 4;
        proof {
            lemma_rotation_keeps_magnitude(*self, quarters as int);
        }
        if q == 0 {
            *self
        } else if q == 1 {
            Angle { dx: -self.dy, dy: self.dx }
        } else if q == 2 {
            Angle { dx: -self.dx, dy: -self.dy }
        } else {
            Angle { dx: self.dy, dy: -self.dx }
        }
    }

    /// The reverse direction.
    pub fn opposite(&self) -> (a: Angle)
        requires
            self.valid(),
        ensures
            a == self.spec_opposite(),
            a == self.spec_rotate_quarters(2),
            a.valid(),
            a.spec_magnitude() == self.spec_magnitude(),
    {
        proof {
            lemma_rotation_keeps_magnitude(*self, 2);
        }
        Angle { dx: -self.dx, dy: -self.dy }
    }
}

/// A vector is at least as long as each of its components.
pub proof fn lemma_magnitude_covers(a: Angle)
    ensures
        a.spec_magnitude() >= a.dx,
        a.spec_magnitude() >= -a.dx,
        a.spec_magnitude() >= a.dy,
        a.spec_magnitude() >= -a.dy,
{
    let dx = a.dx as int;
    let dy = a.dy as int;
    let ax: nat = if dx < 0 {
        (-dx) as nat
    } else {
        dx as nat
    };
    let ay: nat = if dy < 0 {
        (-dy) as nat
    } else {
        dy as nat
    };
    assert(ax * ax == dx * dx && ay * ay == dy * dy && ax * ax >= 0 && ay * ay >= 0)
        by (nonlinear_arith)
        requires
            ax == dx || ax == -dx,
            ay == dy || ay == -dy,
    ;
    lemma_floor_sqrt_of_square(ax);
    lemma_floor_sqrt_of_square(ay);
    lemma_floor_sqrt_monotone(ax * ax, (dx * dx + dy * dy) as nat);
    lemma_floor_sqrt_monotone(ay * ay, (dx * dx + dy * dy) as nat);
}

/// A quarter turn keeps the length of the vector.
pub proof fn lemma_rotation_keeps_magnitude(a: Angle, quarters: int)
    requires
        a.valid(),
    ensures
        a.spec_rotate_quarters(quarters).spec_magnitude() == a.spec_magnitude(),
        a.spec_rotate_quarters(quarters).valid(),
{
    let dx = a.dx as int;
    let dy = a.dy as int;
    assert((-dx) * (-dx) == dx * dx) by (nonlinear_arith);
    assert((-dy) * (-dy) == dy * dy) by (nonlinear_arith);
}

/// A displacement is no longer, in either coordinate, than its distance.
pub proof fn lemma_offset_bounds(a: Angle, dist: int)
    ensures
        dist >= 0 ==> -dist <= a.spec_offset(dist).0 <= dist && -dist <= a.spec_offset(dist).1
            <= dist,
        dist <= 0 ==> dist <= a.spec_offset(dist).0 <= -dist && dist <= a.spec_offset(dist).1
            <= -dist,
{
    let m = a.spec_magnitude() as int;
    lemma_magnitude_covers(a);
    if m > 0 {
        if dist >= 0 {
            lemma_scaled_bounds(dist, a.dx as int, m);
            lemma_scaled_bounds(dist, a.dy as int, m);
        } else {
            lemma_scaled_bounds(-dist, a.dx as int, m);
            lemma_scaled_bounds(-dist, a.dy as int, m);
            lemma_scaled_neg(-dist, a.dx as int, m);
            lemma_scaled_neg(-dist, a.dy as int, m);
        }
    }
}

/// The displacement in the reverse direction is the negated displacement.
pub proof fn lemma_offset_opposite(a: Angle, dist: int)
    requires
        a.valid(),
    ensures
        a.spec_opposite().spec_offset(dist).0 == -a.spec_offset(dist).0,
        a.spec_opposite().spec_offset(dist).1 == -a.spec_offset(dist).1,
{
    let m = a.spec_magnitude() as int;
    lemma_rotation_keeps_magnitude(a, 2);
    assert(a.spec_opposite() == a.spec_rotate_quarters(2));
    lemma_scaled_neg(dist, a.dx as int, m);
    lemma_scaled_neg(dist, a.dy as int, m);
}

impl Pt2D {
    /// Both coordinates are within `limit` of zero.
    pub open spec fn within(self, limit: int) -> bool {
        -limit <= self.x <= limit && -limit <= self.y <= limit
    }

    /// The point lies in the world that the geometry works on.
    pub open spec fn in_world(self) -> bool {
        self.within(WORLD_LIMIT as int)
    }

    /// The point moved by the vector `(dx, dy)`.
    pub open spec fn spec_moved_by(self, dx: int, dy: int) -> Pt2D {
        Pt2D { x: (self.x + dx) as i64, y: (self.y + dy) as i64 }
    }

    /// The point at distance `dist` from this one in the direction `angle`.
    pub open spec fn spec_project_away(self, dist: int, angle: Angle) -> Pt2D {
        self.spec_moved_by(angle.spec_offset(dist).0, angle.spec_offset(dist).1)
    }

    /// The point at `(x, y)`.
    pub fn new(x: i64, y: i64) -> (p: Pt2D)
        ensures
            p == (Pt2D { x, y }),
    {
        Pt2D { x, y }
    }

    /// The first coordinate.
    pub fn x(&self) -> (x: i64)
        ensures
            x == self.x,
    {
        self.x
    }

    /// The second coordinate.
    pub fn y(&self) -> (y: i64)
        ensures
            y == self.y,
    {
        self.y
    }

    /// The direction from this point to `to`.
    pub fn angle_to(&self, to: Pt2D) -> (a: Angle)
        requires
            self.in_world(),
            to.in_world(),
        ensures
            a == (Angle { dx: (to.x - self.x) as i64, dy: (to.y - self.y) as i64 }),
            a.valid(),
    {
        Angle { dx: to.x - self.x, dy: to.y - self.y }
    }

    /// The point at distance `dist` from this one in the direction `angle`.
    /// With no direction (the zero vector) the point stays where it is.
    pub fn project_away(&self, dist: i64, angle: Angle) -> (p: Pt2D)
        requires
            self.in_world(),
            angle.valid(),
            -MAX_DISTANCE <= dist <= MAX_DISTANCE,
        ensures
            p == self.spec_project_away(dist as int, angle),
            p.x - self.x == angle.spec_offset(dist as int).0,
            p.y - self.y == angle.spec_offset(dist as int).1,
    {
        let len: u64 = angle.magnitude();
        let ox: i64 = scale(dist, angle.dx, len);
        let oy: i64 = scale(dist, angle.dy, len);
        proof {
            lemma_offset_bounds(angle, dist as int);
        }
        Pt2D { x: self.x + ox, y: self.y + oy }
    }
}

/// A projected point is no further from where it started, in either
/// coordinate, than the distance of the projection.
pub proof fn lemma_project_away_within(p: Pt2D, dist: int, angle: Angle, limit: int, reach: int)
    requires
        p.within(limit),
        -reach <= dist <= reach,
        limit + reach <= i64::MAX,
    ensures
        p.spec_project_away(dist, angle).within(limit + reach),
        p.spec_project_away(dist, angle).x == p.x + angle.spec_offset(dist).0,
        p.spec_project_away(dist, angle).y == p.y + angle.spec_offset(dist).1,
{
    lemma_offset_bounds(angle, dist);
}

} // verus!
