//! Polylines: paths through two or more points, measured by arc length.

use crate::geom::line::{lemma_dist_along_between, Line};
use crate::geom::pt::{lemma_project_away_within, Angle, Pt2D, MAX_DISTANCE, WORLD_LIMIT};
use crate::geom::polygon::{Polygon, Quad};
use crate::geom::thicken::{spec_thick_quad, spec_thicken, thick_quad};
use vstd::prelude::*;

verus! {

/// The largest number of points in a polyline.
pub const MAX_POINTS: usize = 0x10_0000;

/// Every point of `pts` is within `limit` of the origin in both coordinates.
pub open spec fn pts_within(pts: Seq<Pt2D>, limit: int) -> bool {
    forall|i: int| 0 <= i < pts.len() ==> (#[trigger] pts[i]).within(limit)
}

/// The segment from point `i` to the next.
pub open spec fn segment(pts: Seq<Pt2D>, i: int) -> Line {
    Line { pt1: pts[i], pt2: pts[i + 1] }
}

/// The length of the path from point `i` to the end: the sum of the lengths
/// of its segments, each rounded down.
pub open spec fn length_from(pts: Seq<Pt2D>, i: int) -> nat
    decreases pts.len() - i,
{
    if i < 0 || i + 1 >= pts.len() {
        0
    } else {
        segment(pts, i).spec_length() + length_from(pts, i + 1)
    }
}

/// The length of the whole path.
pub open spec fn path_length(pts: Seq<Pt2D>) -> nat {
    length_from(pts, 0)
}

/// Where the distance `dist`, measured from point `i`, falls: the index of
/// the first segment of positive length that reaches it, and the distance
/// left within that segment. Nothing if the path ends before.
pub open spec fn locate_from(pts: Seq<Pt2D>, i: int, dist: int) -> Option<(int, int)>
    decreases pts.len() - i,
{
    if i < 0 || i + 1 >= pts.len() {
        None
    } else if segment(pts, i).spec_length() > 0 && dist <= segment(pts, i).spec_length() {
        Some((i, dist))
    } else {
        locate_from(pts, i + 1, dist - segment(pts, i).spec_length())
    }
}

/// The segment and the distance within it at arc length `dist` from the
/// start of the path. Nothing for a negative distance or one beyond the end.
pub open spec fn locate(pts: Seq<Pt2D>, dist: int) -> Option<(int, int)> {
    if dist < 0 {
        None
    } else {
        locate_from(pts, 0, dist)
    }
}

/// The point at arc length `dist` from the start of the path, and the
/// direction of the path there. Nothing for a negative distance or one
/// beyond the end.
pub open spec fn lookup(pts: Seq<Pt2D>, dist: int) -> Option<(Pt2D, Angle)> {
    match locate(pts, dist) {
        Some((k, rest)) => Some(
            (segment(pts, k).spec_dist_along(rest), segment(pts, k).spec_angle()),
        ),
        None => None,
    }
}

/// The path shifted sideways by `width` without any care for its corners:
/// each point moves as the start of the segment that leaves it, the last
/// point as the end of the segment that reaches it.
pub open spec fn spec_shift_blindly(pts: Seq<Pt2D>, width: int) -> Seq<Pt2D> {
    Seq::new(
        pts.len(),
        |i: int|
            if i + 1 < pts.len() {
                segment(pts, i).spec_shift(width).pt1
            } else {
                segment(pts, i - 1).spec_shift(width).pt2
            },
    )
}

/// The segments of the path, in order.
pub open spec fn spec_lines(pts: Seq<Pt2D>) -> Seq<Line> {
    Seq::new((pts.len() - 1) as nat, |i: int| segment(pts, i))
}

/// A path is at most as long as `2^32` times the number of its segments.
pub proof fn lemma_length_from_bound(pts: Seq<Pt2D>, i: int)
    requires
        0 <= i,
        pts_within(pts, WORLD_LIMIT as int),
    ensures
        length_from(pts, i) <= 0x1_0000_0000 * (if i + 1 >= pts.len() {
            0
        } else {
            pts.len() - 1 - i
        }),
    decreases pts.len() - i,
{
    if i + 1 < pts.len() {
        lemma_length_from_bound(pts, i + 1);
        assert(pts[i].within(WORLD_LIMIT as int) && pts[i + 1].within(WORLD_LIMIT as int));
        lemma_segment_length_bound(segment(pts, i));
    }
}

/// A segment in the world is shorter than `2^32`.
pub proof fn lemma_segment_length_bound(l: Line)
    requires
        l.in_world(),
    ensures
        l.spec_length() < 0x1_0000_0000,
{
    let a = l.spec_angle();
    let dx = a.dx as int;
    let dy = a.dy as int;
    crate::num::lemma_floor_sqrt((dx * dx + dy * dy) as nat);
    let m = a.spec_magnitude() as int;
    assert(0 <= dx * dx + dy * dy < 0x1_0000_0000 * 0x1_0000_0000) by (nonlinear_arith)
        requires
            -0x8000_0000 <= dx <= 0x8000_0000,
            -0x8000_0000 <= dy <= 0x8000_0000,
    ;
    if m >= 0x1_0000_0000 {
        assert(m * m >= 0x1_0000_0000 * 0x1_0000_0000) by (nonlinear_arith)
            requires
                m >= 0x1_0000_0000,
        ;
    }
}

/// Where a distance falls on a path: it falls somewhere exactly when it is
/// no more than the length that is left and that length is positive; the
/// segment found has positive length and holds the rest of the distance.
pub proof fn lemma_locate_from(pts: Seq<Pt2D>, i: int, dist: int)
    requires
        0 <= i,
        0 <= dist,
    ensures
        locate_from(pts, i, dist) is Some <==> dist <= length_from(pts, i) && length_from(pts, i)
            > 0,
        match locate_from(pts, i, dist) {
            Some((k, rest)) => {
                &&& i <= k < pts.len() - 1
                &&& 0 <= rest <= segment(pts, k).spec_length()
                &&& segment(pts, k).spec_length() > 0
                &&& dist - rest == length_from(pts, i) - length_from(pts, k)
            },
            None => true,
        },
    decreases pts.len() - i,
{
    if i + 1 < pts.len() {
        let len = segment(pts, i).spec_length() as int;
        if !(len > 0 && dist <= len) {
            lemma_locate_from(pts, i + 1, dist - len);
        }
    }
}

/// A distance falls on a path exactly when it lies between zero and the
/// path's length and the path has positive length. The point found is then
/// as close to the origin as the path's points are, and the direction
/// found is that of a segment of positive length.
pub proof fn lemma_lookup(pts: Seq<Pt2D>, dist: int, limit: int)
    requires
        pts_within(pts, limit),
        limit <= WORLD_LIMIT,
    ensures
        lookup(pts, dist) is Some <==> 0 <= dist <= path_length(pts) && path_length(pts) > 0,
        lookup(pts, dist) is Some <==> locate(pts, dist) is Some,
        match lookup(pts, dist) {
            Some((p, a)) => p.within(limit) && a.valid() && a.spec_magnitude() > 0,
            None => true,
        },
{
    if dist >= 0 {
        lemma_locate_from(pts, 0, dist);
        if let Some((k, rest)) = locate_from(pts, 0, dist) {
            assert(pts[k].within(limit) && pts[k + 1].within(limit));
            lemma_dist_along_between(segment(pts, k), rest);
        }
    }
}

/// A polyline: a path through two or more points of the world.
#[derive(Debug)]
pub struct PolyLine {
    pts: Vec<Pt2D>,
}

impl View for PolyLine {
    type V = Seq<Pt2D>;

    closed spec fn view(&self) -> Seq<Pt2D> {
        self.pts@
    }
}

impl PolyLine {
    /// What makes a sequence of points a polyline: two points or more, not
    /// more than [`MAX_POINTS`], all of them in the world.
    pub open spec fn valid_points(pts: Seq<Pt2D>) -> bool {
        2 <= pts.len() <= MAX_POINTS && pts_within(pts, WORLD_LIMIT as int)
    }

    /// The polyline holds valid points.
    pub open spec fn wf(&self) -> bool {
        Self::valid_points(self@)
    }

    /// The length of the path, in the model.
    pub open spec fn spec_length(&self) -> nat {
        path_length(self@)
    }

    /// The polyline through `pts`, or nothing if they are fewer than two,
    /// more than [`MAX_POINTS`], or not all in the world.
    pub fn new(pts: Vec<Pt2D>) -> (r: Option<PolyLine>)
        ensures
            r is Some <==> Self::valid_points(pts@),
            r matches Some(p) ==> p@ == pts@ && p.wf(),
    {
        if pts.len() < 2 || pts.len() > MAX_POINTS {
            return None;
        }
        let mut i: usize = 0;
        while i < pts.len()
            invariant
                i <= pts.len(),
                forall|j: int| 0 <= j < i ==> (#[trigger] pts@[j]).within(WORLD_LIMIT as int),
            decreases pts.len() - i,
        {
            let p: Pt2D = pts[i];
            if p.x < -WORLD_LIMIT || p.x > WORLD_LIMIT || p.y < -WORLD_LIMIT || p.y > WORLD_LIMIT {
                assert(!pts@[i as int].within(WORLD_LIMIT as int));
                return None;
            }
            i += 1;
        }
        Some(PolyLine { pts })
    }

    /// Whether the polyline holds valid points. One made by [`PolyLine::new`]
    /// always does.
    pub fn check(&self) -> (r: bool)
        ensures
            r == self.wf(),
    {
        if self.pts.len() < 2 || self.pts.len() > MAX_POINTS {
            return false;
        }
        let mut i: usize = 0;
        while i < self.pts.len()
            invariant
                i <= self.pts.len(),
                forall|j: int| 0 <= j < i ==> (#[trigger] self@[j]).within(WORLD_LIMIT as int),
            decreases self.pts.len() - i,
        {
            let p: Pt2D = self.pts[i];
            if p.x < -WORLD_LIMIT || p.x > WORLD_LIMIT || p.y < -WORLD_LIMIT || p.y > WORLD_LIMIT {
                assert(!self@[i as int].within(WORLD_LIMIT as int));
                return false;
            }
            i += 1;
        }
        true
    }

    /// The points of the path.
    pub fn points(&self) -> (pts: &Vec<Pt2D>)
        ensures
            pts@ == self@,
    {
        &self.pts
    }

    /// The length of the path: the sum of the lengths of its segments.
    pub fn length(&self) -> (len: u64)
        requires
            self.wf(),
        ensures
            len == self.spec_length(),
            len <= 0x1_0000_0000 * (self@.len() - 1),
    {
        let n: usize = self.pts.len();
        let mut total: u64 = 0;
        let mut i: usize = 0;
        proof {
            lemma_length_from_bound(self@, 0);
        }
        while i + 1 < n
            invariant
                n == self.pts.len(),
                self.wf(),
                i + 1 <= n,
                total + length_from(self@, i as int) == path_length(self@),
                path_length(self@) <= 0x1_0000_0000 * (n - 1),
            decreases n - i,
        {
            let l: Line = Line::new(self.pts[i], self.pts[i + 1]);
            assert(l == segment(self@, i as int));
            assert(self@[i as int].within(WORLD_LIMIT as int) && self@[i + 1].within(
                WORLD_LIMIT as int,
            ));
            let len: u64 = l.length();
            total = total + len;
            i += 1;
        }
        total
    }

    /// The segments of the path, in order.
    pub fn lines(&self) -> (r: Vec<Line>)
        requires
            self.wf(),
        ensures
            r@ == spec_lines(self@),
    {
        let n: usize = self.pts.len();
        let mut out: Vec<Line> = Vec::new();
        let mut i: usize = 0;
        while i + 1 < n
            invariant
                n == self.pts.len(),
                i + 1 <= n,
                out@.len() == i,
                forall|j: int| 0 <= j < i ==> out@[j] == segment(self@, j),
            decreases n - i,
        {
            out.push(Line::new(self.pts[i], self.pts[i + 1]));
            i += 1;
        }
        assert(out@ =~= spec_lines(self@));
        out
    }

    /// The first segment of the path.
    pub fn first_line(&self) -> (l: Line)
        requires
            self.wf(),
        ensures
            l == segment(self@, 0),
            l.in_world(),
    {
        assert(self@[0].within(WORLD_LIMIT as int) && self@[1].within(WORLD_LIMIT as int));
        Line::new(self.pts[0], self.pts[1])
    }

    /// The last segment of the path.
    pub fn last_line(&self) -> (l: Line)
        requires
            self.wf(),
        ensures
            l == segment(self@, self@.len() - 2),
            l.in_world(),
    {
        let n: usize = self.pts.len();
        assert(self@[n - 2].within(WORLD_LIMIT as int) && self@[n - 1].within(WORLD_LIMIT as int));
        Line::new(self.pts[n - 2], self.pts[n - 1])
    }

    /// The same path walked from its end to its start.
    pub fn reversed(&self) -> (r: PolyLine)
        requires
            self.wf(),
        ensures
            r@ == self@.reverse(),
            r.wf(),
    {
        let n: usize = self.pts.len();
        let mut out: Vec<Pt2D> = Vec::new();
        let mut i: usize = 0;
        while i < n
            invariant
                n == self.pts.len(),
                i <= n,
                out@.len() == i,
                forall|j: int| 0 <= j < i ==> out@[j] == self@[n - 1 - j],
            decreases n - i,
        {
            out.push(self.pts[n - 1 - i]);
            i += 1;
        }
        proof {
            assert(out@ =~= self@.reverse());
            assert forall|j: int| 0 <= j < out@.len() implies (#[trigger] out@[j]).within(
                WORLD_LIMIT as int,
            ) by {
                assert(self@[n - 1 - j].within(WORLD_LIMIT as int));
            }
        }
        PolyLine { pts: out }
    }

    /// The path shifted sideways by `width` without any care for its
    /// corners: no point is added or moved to make the shifted segments meet
    /// as the segments of the path do.
    pub fn shift_blindly(&self, width: i64) -> (r: PolyLine)
        requires
            self.wf(),
            pts_within(self@, WORLD_LIMIT - MAX_DISTANCE),
            -MAX_DISTANCE <= width <= MAX_DISTANCE,
        ensures
            r@ == spec_shift_blindly(self@, width as int),
            r.wf(),
    {
        let n: usize = self.pts.len();
        let mut out: Vec<Pt2D> = Vec::new();
        let mut i: usize = 0;
        while i < n
            invariant
                n == self.pts.len(),
                self.wf(),
                pts_within(self@, WORLD_LIMIT - MAX_DISTANCE),
                -MAX_DISTANCE <= width <= MAX_DISTANCE,
                i <= n,
                out@.len() == i,
                forall|j: int|
                    0 <= j < i ==> out@[j] == spec_shift_blindly(self@, width as int)[j],
                forall|j: int| 0 <= j < i ==> (#[trigger] out@[j]).within(WORLD_LIMIT as int),
            decreases n - i,
        {
            let k: usize = if i + 1 < n {
                i
            } else {
                i - 1
            };
            assert(self@[k as int].within(WORLD_LIMIT - MAX_DISTANCE) && self@[k + 1].within(
                WORLD_LIMIT - MAX_DISTANCE,
            ));
            let shifted: Line = Line::new(self.pts[k], self.pts[k + 1]).shift(width);
            proof {
                let side = segment(self@, k as int).spec_angle().spec_rotate_quarters(1);
                lemma_project_away_within(
                    self@[k as int],
                    width as int,
                    side,
                    WORLD_LIMIT - MAX_DISTANCE,
                    MAX_DISTANCE as int,
                );
                lemma_project_away_within(
                    self@[k + 1],
                    width as int,
                    side,
                    WORLD_LIMIT - MAX_DISTANCE,
                    MAX_DISTANCE as int,
                );
            }
            let p: Pt2D = if i + 1 < n {
                shifted.pt1()
            } else {
                shifted.pt2()
            };
            out.push(p);
            i += 1;
        }
        assert(out@ =~= spec_shift_blindly(self@, width as int));
        PolyLine { pts: out }
    }

    /// The path thickened to `width`, blindly: each segment becomes the
    /// quadrilateral that lies along it, and nothing is done where they meet.
    pub fn make_polygons_blindly(&self, width: i64) -> (r: Polygon)
        requires
            self.wf(),
            pts_within(self@, WORLD_LIMIT - MAX_DISTANCE),
            0 <= width <= 2 * MAX_DISTANCE,
        ensures
            r@ == spec_thicken(self@, width as int),
            r.wf(),
    {
        let n: usize = self.pts.len();
        let mut out: Vec<Quad> = Vec::new();
        let mut i: usize = 0;
        while i + 1 < n
            invariant
                n == self.pts.len(),
                self.wf(),
                pts_within(self@, WORLD_LIMIT - MAX_DISTANCE),
                0 <= width <= 2 * MAX_DISTANCE,
                i + 1 <= n,
                out@.len() == i,
                forall|j: int|
                    0 <= j < i ==> out@[j] == spec_thick_quad(segment(self@, j), width as int),
                forall|j: int| 0 <= j < i ==> (#[trigger] out@[j]).in_world(),
            decreases n - i,
        {
            assert(self@[i as int].within(WORLD_LIMIT - MAX_DISTANCE) && self@[i + 1].within(
                WORLD_LIMIT - MAX_DISTANCE,
            ));
            out.push(thick_quad(Line::new(self.pts[i], self.pts[i + 1]), width));
            i += 1;
        }
        assert(out@ =~= spec_thicken(self@, width as int));
        Polygon::from_quads(out)
    }

    /// The point at arc length `dist` from the start of the path, and the
    /// direction of the path there; nothing for a negative distance or one
    /// beyond the end of the path. Segments of length zero are passed over.
    pub fn safe_dist_along(&self, dist: i64) -> (r: Option<(Pt2D, Angle)>)
        requires
            self.wf(),
        ensures
            r == lookup(self@, dist as int),
            r is Some <==> 0 <= dist <= self.spec_length() && self.spec_length() > 0,
    {
        proof {
            lemma_lookup(self@, dist as int, WORLD_LIMIT as int);
        }
        if dist < 0 {
            return None;
        }
        let n: usize = self.pts.len();
        let mut left: u64 = dist as u64;
        let mut i: usize = 0;
        while i + 1 < n
            invariant
                n == self.pts.len(),
                self.wf(),
                i + 1 <= n,
                locate_from(self@, i as int, left as int) == locate(self@, dist as int),
            decreases n - i,
        {
            assert(self@[i as int].within(WORLD_LIMIT as int) && self@[i + 1].within(
                WORLD_LIMIT as int,
            ));
            let l: Line = Line::new(self.pts[i], self.pts[i + 1]);
            assert(l == segment(self@, i as int));
            let len: u64 = l.length();
            if len > 0 && left <= len {
                proof {
                    lemma_lookup(self@, dist as int, WORLD_LIMIT as int);
                }
                return Some((l.dist_along(left), l.angle()));
            }
            left = left - len;
            i += 1;
        }
        proof {
            lemma_lookup(self@, dist as int, WORLD_LIMIT as int);
        }
        None
    }

    /// The point at arc length `dist` from the start of the path, and the
    /// direction of the path there, for a distance that lies on the path.
    pub fn dist_along(&self, dist: i64) -> (r: (Pt2D, Angle))
        requires
            self.wf(),
            0 <= dist <= self.spec_length(),
            self.spec_length() > 0,
        ensures
            Some(r) == lookup(self@, dist as int),
    {
        match self.safe_dist_along(dist) {
            Some(r) => r,
            None => {
                proof {
                    assert(false);
                }
                (self.pts[0], Angle::new(0, 0))
            },
        }
    }
}

} // verus!
