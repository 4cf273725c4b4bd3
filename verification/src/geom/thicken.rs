//! Thickening a segment into the quadrilateral that lies along it.

use crate::geom::line::{lemma_dist_along_between, Line};
use crate::geom::polygon::{cross, Quad};
use crate::geom::pt::{
    lemma_magnitude_covers, lemma_offset_bounds, lemma_offset_opposite,
    lemma_rotation_keeps_magnitude, Pt2D, MAX_DISTANCE, WORLD_LIMIT,
};
use crate::num::{
    lemma_floor_sqrt, lemma_scaled_cross, lemma_scaled_dot_least, lemma_scaled_neg,
    lemma_scaled_product, scaled,
};
use vstd::prelude::*;

verus! {

/// The least width for which a thickened segment is sure to contain the
/// points along the segment itself, whatever the rounding.
pub const MIN_WIDTH: i64 = 4;

/// The segment thickened to `width`: the quadrilateral between the segment
/// shifted by half the width to one side and shifted as far to the other.
pub open spec fn spec_thick_quad(l: Line, width: int) -> Quad {
    Quad {
        a: l.spec_shift(width / 2).pt1,
        b: l.spec_shift(width / 2).pt2,
        c: l.spec_reverse().spec_shift(width / 2).pt1,
        d: l.spec_reverse().spec_shift(width / 2).pt2,
    }
}

/// A thickened segment is a parallelogram about the segment: its corners are
/// the ends of the segment moved by one displacement and by its negation.
pub proof fn lemma_thick_quad(l: Line, width: int)
    requires
        l.within(WORLD_LIMIT - MAX_DISTANCE),
        0 <= width <= 2 * MAX_DISTANCE,
    ensures
        ({
            let q = spec_thick_quad(l, width);
            let o = l.spec_angle().spec_rotate_quarters(1).spec_offset(width / 2);
            &&& q.a.x == l.pt1.x + o.0 && q.a.y == l.pt1.y + o.1
            &&& q.b.x == l.pt2.x + o.0 && q.b.y == l.pt2.y + o.1
            &&& q.c.x == l.pt2.x - o.0 && q.c.y == l.pt2.y - o.1
            &&& q.d.x == l.pt1.x - o.0 && q.d.y == l.pt1.y - o.1
            &&& -width / 2 <= o.0 <= width / 2
            &&& -width / 2 <= o.1 <= width / 2
            &&& q.in_world()
        }),
{
    let side = l.spec_angle().spec_rotate_quarters(1);
    lemma_rotation_keeps_magnitude(l.spec_angle(), 1);
    assert(l.spec_reverse().spec_angle() == l.spec_angle().spec_opposite());
    assert(l.spec_reverse().spec_angle().spec_rotate_quarters(1) == side.spec_opposite());
    lemma_offset_opposite(side, width / 2);
    lemma_offset_bounds(side, width / 2);
}

/// The segment thickened to `width`.
pub fn thick_quad(l: Line, width: i64) -> (q: Quad)
    requires
        l.within(WORLD_LIMIT - MAX_DISTANCE),
        0 <= width <= 2 * MAX_DISTANCE,
    ensures
        q == spec_thick_quad(l, width as int),
        q.in_world(),
{
    proof {
        lemma_thick_quad(l, width as int);
    }
    let left: Line = l.shift(width / 2);
    let right: Line = l.reverse().shift(width / 2);
    Quad::new(left.pt1(), left.pt2(), right.pt1(), right.pt2())
}

/// A segment thickened to a width of at least [`MIN_WIDTH`] contains every
/// point along the segment.
pub proof fn lemma_thick_quad_contains(l: Line, width: int, dist: int)
    requires
        l.within(WORLD_LIMIT - MAX_DISTANCE),
        MIN_WIDTH <= width <= 2 * MAX_DISTANCE,
        l.spec_length() > 0,
        0 <= dist <= l.spec_length(),
    ensures
        spec_thick_quad(l, width).spec_contains(l.spec_dist_along(dist)),
{
    let q = spec_thick_quad(l, width);
    let p = l.spec_dist_along(dist);
    let h = width / 2;
    let a = l.spec_angle();
    let dx = a.dx as int;
    let dy = a.dy as int;
    let m = a.spec_magnitude() as int;
    let side = a.spec_rotate_quarters(1);
    lemma_thick_quad(l, width);
    lemma_dist_along_between(l, dist);
    lemma_rotation_keeps_magnitude(a, 1);
    lemma_magnitude_covers(a);
    lemma_floor_sqrt((dx * dx + dy * dy) as nat);
    assert(dx * dx + dy * dy >= 0) by (nonlinear_arith);
    // the displacement of the two sides, and of the point along the segment
    let u = scaled(h, dx, m);
    let v = scaled(h, dy, m);
    let ox = side.spec_offset(h).0;
    let oy = side.spec_offset(h).1;
    lemma_scaled_neg(h, dy, m);
    assert(ox == -v && oy == u);
    let ex = scaled(dist, dx, m);
    let ey = scaled(dist, dy, m);
    assert(p.x == l.pt1.x + ex && p.y == l.pt1.y + ey);
    // how far the rounding can move them
    lemma_scaled_dot_least(h, dx, dy, m);
    lemma_scaled_cross(dist, dx, dy, m);
    lemma_scaled_product(dist, h, dx, m);
    lemma_scaled_product(dist, h, dy, m);
    let k = dx * u + dy * v;
    let j = dx * ey - dy * ex;
    let i = ex * u + ey * v;
    assert(k >= 1 && -k <= j <= k && 0 <= i <= k);
    // each side's cross product, from the vectors along the side and to the point
    assert(cross(q.a, q.b, p) == dx * (ey - u) - dy * (ex + v));
    assert(dx * (ey - u) - dy * (ex + v) == j - k) by (nonlinear_arith)
        requires
            k == dx * u + dy * v,
            j == dx * ey - dy * ex,
    ;
    assert(cross(q.b, q.c, p) == (2 * v) * (ey - dy - u) - (-2 * u) * (ex - dx + v));
    assert((2 * v) * (ey - dy - u) - (-2 * u) * (ex - dx + v) == 2 * (i - k)) by (nonlinear_arith)
        requires
            k == dx * u + dy * v,
            i == ex * u + ey * v,
    ;
    assert(cross(q.c, q.d, p) == (-dx) * (ey - dy + u) - (-dy) * (ex - dx - v));
    assert((-dx) * (ey - dy + u) - (-dy) * (ex - dx - v) == -j - k) by (nonlinear_arith)
        requires
            k == dx * u + dy * v,
            j == dx * ey - dy * ex,
    ;
    assert(cross(q.d, q.a, p) == (-2 * v) * (ey + u) - (2 * u) * (ex - v));
    assert((-2 * v) * (ey + u) - (2 * u) * (ex - v) == -2 * i) by (nonlinear_arith)
        requires
            i == ex * u + ey * v,
    ;
}

/// The path thickened to `width`: one quadrilateral for each segment.
pub open spec fn spec_thicken(pts: Seq<Pt2D>, width: int) -> Seq<Quad> {
    Seq::new(
        (pts.len() - 1) as nat,
        |i: int| spec_thick_quad(Line { pt1: pts[i], pt2: pts[i + 1] }, width),
    )
}

} // verus!
