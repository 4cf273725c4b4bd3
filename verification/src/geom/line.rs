//! Line segments.

use crate::geom::pt::{
    lemma_magnitude_covers, lemma_offset_bounds, lemma_offset_opposite,
    lemma_rotation_keeps_magnitude, Angle, Pt2D, MAX_DISTANCE, WORLD_LIMIT,
};
use crate::num::{
    lemma_floor_sqrt, lemma_scaled_bounds, lemma_scaled_cross, lemma_scaled_dot,
    lemma_scaled_full, lemma_scaled_neg, scale, scaled,
};
use vstd::prelude::*;

verus! {

/// A segment from `pt1` to `pt2`.
#[derive(Clone, Copy, Debug, PartialEq, Eq, Structural)]
pub struct Line {
    pub pt1: Pt2D,
    pub pt2: Pt2D,
}

impl Line {
    /// Both ends are within `limit` of the origin in both coordinates.
    pub open spec fn within(self, limit: int) -> bool {
        self.pt1.within(limit) && self.pt2.within(limit)
    }

    /// Both ends lie in the world.
    pub open spec fn in_world(self) -> bool {
        self.within(WORLD_LIMIT as int)
    }

    /// The direction from `pt1` to `pt2`.
    pub open spec fn spec_angle(self) -> Angle {
        Angle { dx: (self.pt2.x - self.pt1.x) as i64, dy: (self.pt2.y - self.pt1.y) as i64 }
    }

    /// The length of the segment, rounded down.
    pub open spec fn spec_length(self) -> nat {
        self.spec_angle().spec_magnitude()
    }

    /// The same segment from `pt2` to `pt1`.
    pub open spec fn spec_reverse(self) -> Line {
        Line { pt1: self.pt2, pt2: self.pt1 }
    }

    /// The segment moved sideways by `width`: both ends projected by `width`
    /// in the direction a quarter turn from the segment's own.
    pub open spec fn spec_shift(self, width: int) -> Line {
        Line {
            pt1: self.pt1.spec_project_away(width, self.spec_angle().spec_rotate_quarters(1)),
            pt2: self.pt2.spec_project_away(width, self.spec_angle().spec_rotate_quarters(1)),
        }
    }

    /// The point of the segment at distance `dist` from `pt1`: `pt1` moved
    /// by the segment's vector scaled by `dist / length`.
    pub open spec fn spec_dist_along(self, dist: int) -> Pt2D {
        self.pt1.spec_project_away(dist, self.spec_angle())
    }

    /// The segment from `pt1` to `pt2`.
    pub fn new(pt1: Pt2D, pt2: Pt2D) -> (l: Line)
        ensures
            l == (Line { pt1, pt2 }),
    {
        Line { pt1, pt2 }
    }

    /// The point where the segment starts.
    pub fn pt1(&self) -> (p: Pt2D)
        ensures
            p == self.pt1,
    {
        self.pt1
    }

    /// The point where the segment ends.
    pub fn pt2(&self) -> (p: Pt2D)
        ensures
            p == self.pt2,
    {
        self.pt2
    }

    /// The direction from `pt1` to `pt2`.
    pub fn angle(&self) -> (a: Angle)
        requires
            self.in_world(),
        ensures
            a == self.spec_angle(),
            a.valid(),
    {
        self.pt1.angle_to(self.pt2)
    }

    /// The length of the segment, rounded down.
    pub fn length(&self) -> (len: u64)
        requires
            self.in_world(),
        ensures
            len == self.spec_length(),
            len < 0x1_0000_0000,
    {
        self.angle().magnitude()
    }

    /// The same segment from `pt2` to `pt1`.
    pub fn reverse(&self) -> (l: Line)
        ensures
            l == self.spec_reverse(),
    {
        Line { pt1: self.pt2, pt2: self.pt1 }
    }

    /// The segment moved sideways by `width`, to the side a quarter turn
    /// from its direction; a negative `width` moves it to the other side.
    pub fn shift(&self, width: i64) -> (l: Line)
        requires
            self.in_world(),
            -MAX_DISTANCE <= width <= MAX_DISTANCE,
        ensures
            l == self.spec_shift(width as int),
    {
        let side: Angle = self.angle().rotate_quarters(1);
        Line { pt1: self.pt1.project_away(width, side), pt2: self.pt2.project_away(width, side) }
    }

    /// The point of the segment at distance `dist` from `pt1`.
    pub fn dist_along(&self, dist: u64) -> (p: Pt2D)
        requires
            self.in_world(),
            dist <= self.spec_length(),
        ensures
            p == self.spec_dist_along(dist as int),
    {
        let a: Angle = self.angle();
        let len: u64 = a.magnitude();
        let ox: i64 = scale(dist as i64, a.dx, len);
        let oy: i64 = scale(dist as i64, a.dy, len);
        proof {
            lemma_dist_along_between(*self, dist as int);
        }
        Pt2D { x: self.pt1.x + ox, y: self.pt1.y + oy }
    }
}

/// A point along a segment lies between its ends in both coordinates, the
/// point at distance zero is `pt1`, and the point at the full length is `pt2`.
pub proof fn lemma_dist_along_between(l: Line, dist: int)
    requires
        l.in_world(),
        0 <= dist <= l.spec_length(),
    ensures
        ({
            let p = l.spec_dist_along(dist);
            let o = l.spec_angle().spec_offset(dist);
            &&& p.x == l.pt1.x + o.0
            &&& p.y == l.pt1.y + o.1
            &&& l.pt1.x <= l.pt2.x ==> l.pt1.x <= p.x <= l.pt2.x
            &&& l.pt1.x >= l.pt2.x ==> l.pt1.x >= p.x >= l.pt2.x
            &&& l.pt1.y <= l.pt2.y ==> l.pt1.y <= p.y <= l.pt2.y
            &&& l.pt1.y >= l.pt2.y ==> l.pt1.y >= p.y >= l.pt2.y
        }),
        dist == 0 && l.spec_length() > 0 ==> l.spec_dist_along(dist) == l.pt1,
        dist == l.spec_length() && l.spec_length() > 0 ==> l.spec_dist_along(dist) == l.pt2,
{
    let a = l.spec_angle();
    let m = a.spec_magnitude() as int;
    lemma_magnitude_covers(a);
    if m > 0 {
        lemma_scaled_bounds(dist, a.dx as int, m);
        lemma_scaled_bounds(dist, a.dy as int, m);
        lemma_scaled_full(a.dx as int, m);
        lemma_scaled_full(a.dy as int, m);
    }
}

/// The segment of length `length` that crosses the direction `angle` at
/// right angles and has `pt` as its middle: from `pt` projected half the
/// length a quarter turn to one side, to `pt` projected as far to the other.
pub open spec fn spec_perp_line_at(pt: Pt2D, angle: Angle, length: int) -> Line {
    Line {
        pt1: pt.spec_project_away(length / 2, angle.spec_rotate_quarters(1)),
        pt2: pt.spec_project_away(length / 2, angle.spec_rotate_quarters(3)),
    }
}

/// A crossing segment has the point it was made at as its middle: its two
/// ends lie opposite each other about that point, each no further from it
/// than half the segment's length in either coordinate.
pub proof fn law_perp_line_centred(pt: Pt2D, angle: Angle, length: int)
    requires
        pt.in_world(),
        angle.valid(),
        0 <= length <= 2 * MAX_DISTANCE,
    ensures
        ({
            let l = spec_perp_line_at(pt, angle, length);
            let o = angle.spec_rotate_quarters(1).spec_offset(length / 2);
            &&& l.pt1.x == pt.x + o.0
            &&& l.pt1.y == pt.y + o.1
            &&& l.pt2.x == pt.x - o.0
            &&& l.pt2.y == pt.y - o.1
            &&& l.pt1.x + l.pt2.x == 2 * pt.x
            &&& l.pt1.y + l.pt2.y == 2 * pt.y
            &&& -length / 2 <= o.0 <= length / 2
            &&& -length / 2 <= o.1 <= length / 2
            &&& l.within(WORLD_LIMIT + MAX_DISTANCE)
        }),
{
    let side = angle.spec_rotate_quarters(1);
    lemma_rotation_keeps_magnitude(angle, 1);
    lemma_rotation_keeps_magnitude(angle, 3);
    assert(angle.spec_rotate_quarters(3) == side.spec_opposite());
    lemma_offset_opposite(side, length / 2);
    lemma_offset_bounds(side, length / 2);
}

/// A crossing segment stands at right angles to the direction it crosses,
/// as nearly as the grid allows. From the middle to the first end, the part
/// along the direction (which would be zero without rounding), times the
/// direction's length `m`, is at most `m` in size; the part across it, times
/// `m`, is at least `(length / 2 - 2) * m`.
pub proof fn law_perp_line_at_right_angles(pt: Pt2D, angle: Angle, length: int)
    requires
        pt.in_world(),
        angle.valid(),
        angle.spec_magnitude() > 0,
        0 <= length <= 2 * MAX_DISTANCE,
    ensures
        ({
            let l = spec_perp_line_at(pt, angle, length);
            let m = angle.spec_magnitude();
            let ox = l.pt1.x - pt.x;
            let oy = l.pt1.y - pt.y;
            &&& -m <= angle.dx * ox + angle.dy * oy <= m
            &&& angle.dx * oy - angle.dy * ox >= (length / 2 - 2) * m
        }),
{
    let h = length / 2;
    let dx = angle.dx as int;
    let dy = angle.dy as int;
    let m = angle.spec_magnitude() as int;
    law_perp_line_centred(pt, angle, length);
    lemma_rotation_keeps_magnitude(angle, 1);
    lemma_magnitude_covers(angle);
    lemma_floor_sqrt((dx * dx + dy * dy) as nat);
    assert(dx * dx + dy * dy >= 0) by (nonlinear_arith);
    let u = scaled(h, dx, m);
    let v = scaled(h, dy, m);
    let l = spec_perp_line_at(pt, angle, length);
    let ox = l.pt1.x - pt.x;
    let oy = l.pt1.y - pt.y;
    lemma_scaled_neg(h, dy, m);
    assert(ox == -v && oy == u);
    lemma_scaled_cross(h, dx, dy, m);
    lemma_scaled_dot(h, dx, dy, m);
    assert(dx * ox + dy * oy == -(dx * v - dy * u)) by (nonlinear_arith)
        requires
            ox == -v,
            oy == u,
    ;
    assert(dx * oy - dy * ox == dx * u + dy * v) by (nonlinear_arith)
        requires
            ox == -v,
            oy == u,
    ;
}

/// The segment of length `length` that crosses the direction `angle` at
/// right angles, with `pt` as its middle.
pub fn perp_line_at(pt: Pt2D, angle: Angle, length: i64) -> (l: Line)
    requires
        pt.in_world(),
        angle.valid(),
        0 <= length <= 2 * MAX_DISTANCE,
    ensures
        l == spec_perp_line_at(pt, angle, length as int),
{
    let half: i64 = length / 2;
    let pt1: Pt2D = pt.project_away(half, angle.rotate_quarters(1));
    let pt2: Pt2D = pt.project_away(half, angle.rotate_quarters(3));
    Line { pt1, pt2 }
}

/// The segment of length `length` that crosses `l` at right angles at its
/// first point: from the first point of `l` shifted to one side by half the
/// length, to the same point shifted as far to the other side.
pub fn perp_line(l: Line, length: i64) -> (r: Line)
    requires
        l.in_world(),
        0 <= length <= 2 * MAX_DISTANCE,
    ensures
        r == spec_perp_line_at(l.pt1, l.spec_angle(), length as int),
        r.pt1 == l.spec_shift(length as int / 2).pt1,
        r.pt2 == l.spec_reverse().spec_shift(length as int / 2).pt2,
{
    let pt1: Pt2D = l.shift(length / 2).pt1();
    let pt2: Pt2D = l.reverse().shift(length / 2).pt2();
    proof {
        assert(l.spec_reverse().spec_angle() == l.spec_angle().spec_opposite());
        assert(l.spec_reverse().spec_angle().spec_rotate_quarters(1)
            == l.spec_angle().spec_rotate_quarters(3));
    }
    Line::new(pt1, pt2)
}

} // verus!
