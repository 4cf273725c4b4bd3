//! Bounding boxes, quadrilaterals, and polygons made of quadrilaterals.

use crate::geom::pt::{Pt2D, WORLD_LIMIT};
use vstd::prelude::*;

verus! {

/// The smaller of two coordinates.
pub open spec fn lower(a: i64, b: i64) -> i64 {
    if a <= b {
        a
    } else {
        b
    }
}

/// The larger of two coordinates.
pub open spec fn upper(a: i64, b: i64) -> i64 {
    if a >= b {
        a
    } else {
        b
    }
}

/// Twice the signed area of the triangle `o`, `p`, `q`: the cross product of
/// the vectors from `o` to `p` and from `o` to `q`. Its sign tells on which
/// side of the line through `o` and `p` the point `q` lies.
pub open spec fn cross(o: Pt2D, p: Pt2D, q: Pt2D) -> int {
    (p.x - o.x) * (q.y - o.y) - (p.y - o.y) * (q.x - o.x)
}

/// An axis-parallel box, edges included.
#[derive(Clone, Copy, Debug, PartialEq, Eq, Structural)]
pub struct Bounds {
    pub min_x: i64,
    pub min_y: i64,
    pub max_x: i64,
    pub max_y: i64,
}

impl Bounds {
    /// The point lies in the box or on its edge.
    pub open spec fn spec_contains(self, p: Pt2D) -> bool {
        self.min_x <= p.x <= self.max_x && self.min_y <= p.y <= self.max_y
    }

    /// The box lies in the world.
    pub open spec fn in_world(self) -> bool {
        &&& -WORLD_LIMIT <= self.min_x <= self.max_x <= WORLD_LIMIT
        &&& -WORLD_LIMIT <= self.min_y <= self.max_y <= WORLD_LIMIT
    }

    /// The smallest box that holds both boxes.
    pub open spec fn spec_union(self, other: Bounds) -> Bounds {
        Bounds {
            min_x: lower(self.min_x, other.min_x),
            min_y: lower(self.min_y, other.min_y),
            max_x: upper(self.max_x, other.max_x),
            max_y: upper(self.max_y, other.max_y),
        }
    }

    /// The smallest box that holds this box and the point.
    pub open spec fn spec_with(self, p: Pt2D) -> Bounds {
        Bounds {
            min_x: lower(self.min_x, p.x),
            min_y: lower(self.min_y, p.y),
            max_x: upper(self.max_x, p.x),
            max_y: upper(self.max_y, p.y),
        }
    }

    /// The box that holds the one point `p`.
    pub open spec fn spec_at(p: Pt2D) -> Bounds {
        Bounds { min_x: p.x, min_y: p.y, max_x: p.x, max_y: p.y }
    }

    /// The box that holds the one point `p`.
    pub fn at(p: Pt2D) -> (b: Bounds)
        ensures
            b == Self::spec_at(p),
    {
        Bounds { min_x: p.x, min_y: p.y, max_x: p.x, max_y: p.y }
    }

    /// The smallest box that holds this box and the point.
    pub fn with(&self, p: Pt2D) -> (b: Bounds)
        ensures
            b == self.spec_with(p),
    {
        Bounds {
            min_x: if self.min_x <= p.x {
                self.min_x
            } else {
                p.x
            },
            min_y: if self.min_y <= p.y {
                self.min_y
            } else {
                p.y
            },
            max_x: if self.max_x >= p.x {
                self.max_x
            } else {
                p.x
            },
            max_y: if self.max_y >= p.y {
                self.max_y
            } else {
                p.y
            },
        }
    }

    /// The smallest box that holds both boxes.
    pub fn union(&self, other: &Bounds) -> (b: Bounds)
        ensures
            b == self.spec_union(*other),
    {
        Bounds {
            min_x: if self.min_x <= other.min_x {
                self.min_x
            } else {
                other.min_x
            },
            min_y: if self.min_y <= other.min_y {
                self.min_y
            } else {
                other.min_y
            },
            max_x: if self.max_x >= other.max_x {
                self.max_x
            } else {
                other.max_x
            },
            max_y: if self.max_y >= other.max_y {
                self.max_y
            } else {
                other.max_y
            },
        }
    }

    /// Whether the point lies in the box or on its edge.
    pub fn contains(&self, p: Pt2D) -> (r: bool)
        ensures
            r == self.spec_contains(p),
    {
        self.min_x <= p.x && p.x <= self.max_x && self.min_y <= p.y && p.y <= self.max_y
    }
}

/// A quadrilateral with the corners `a`, `b`, `c`, `d` in order around it.
#[derive(Clone, Copy, Debug, PartialEq, Eq, Structural)]
pub struct Quad {
    pub a: Pt2D,
    pub b: Pt2D,
    pub c: Pt2D,
    pub d: Pt2D,
}

impl Quad {
    /// All four corners lie in the world.
    pub open spec fn in_world(self) -> bool {
        self.a.in_world() && self.b.in_world() && self.c.in_world() && self.d.in_world()
    }

    /// The smallest box that holds the four corners.
    pub open spec fn spec_bounds(self) -> Bounds {
        Bounds::spec_at(self.a).spec_with(self.b).spec_with(self.c).spec_with(self.d)
    }

    /// The point lies on the same side of all four edges (or on some of them),
    /// and is off at least one of the lines through an edge: so a
    /// quadrilateral that has collapsed to a segment or a point contains nothing.
    pub open spec fn spec_contains(self, p: Pt2D) -> bool {
        let s1 = cross(self.a, self.b, p);
        let s2 = cross(self.b, self.c, p);
        let s3 = cross(self.c, self.d, p);
        let s4 = cross(self.d, self.a, p);
        ||| s1 <= 0 && s2 <= 0 && s3 <= 0 && s4 <= 0 && (s1 < 0 || s2 < 0 || s3 < 0 || s4 < 0)
        ||| s1 >= 0 && s2 >= 0 && s3 >= 0 && s4 >= 0 && (s1 > 0 || s2 > 0 || s3 > 0 || s4 > 0)
    }

    /// The quadrilateral with these corners, in this order around it.
    pub fn new(a: Pt2D, b: Pt2D, c: Pt2D, d: Pt2D) -> (q: Quad)
        ensures
            q == (Quad { a, b, c, d }),
    {
        Quad { a, b, c, d }
    }

    /// The smallest box that holds the four corners.
    pub fn get_bounds(&self) -> (b: Bounds)
        ensures
            b == self.spec_bounds(),
    {
        Bounds::at(self.a).with(self.b).with(self.c).with(self.d)
    }

    /// Whether the point lies in the quadrilateral or on its edge.
    pub fn contains_pt(&self, p: Pt2D) -> (r: bool)
        requires
            self.in_world(),
            p.in_world(),
        ensures
            r == self.spec_contains(p),
    {
        let s1: i128 = side(self.a, self.b, p);
        let s2: i128 = side(self.b, self.c, p);
        let s3: i128 = side(self.c, self.d, p);
        let s4: i128 = side(self.d, self.a, p);
        (s1 <= 0 && s2 <= 0 && s3 <= 0 && s4 <= 0 && (s1 < 0 || s2 < 0 || s3 < 0 || s4 < 0)) || (s1
            >= 0 && s2 >= 0 && s3 >= 0 && s4 >= 0 && (s1 > 0 || s2 > 0 || s3 > 0 || s4 > 0))
    }
}

/// Computes [`cross`] for three points of the world.
pub fn side(o: Pt2D, p: Pt2D, q: Pt2D) -> (s: i128)
    requires
        o.in_world(),
        p.in_world(),
        q.in_world(),
    ensures
        s == cross(o, p, q),
{
    let px: i128 = (p.x - o.x) as i128;
    let py: i128 = (p.y - o.y) as i128;
    let qx: i128 = (q.x - o.x) as i128;
    let qy: i128 = (q.y - o.y) as i128;
    assert(-0x4000_0000_0000_0000 <= px * qy <= 0x4000_0000_0000_0000) by (nonlinear_arith)
        requires
            -0x8000_0000 <= px <= 0x8000_0000,
            -0x8000_0000 <= qy <= 0x8000_0000,
    ;
    assert(-0x4000_0000_0000_0000 <= py * qx <= 0x4000_0000_0000_0000) by (nonlinear_arith)
        requires
            -0x8000_0000 <= py <= 0x8000_0000,
            -0x8000_0000 <= qx <= 0x8000_0000,
    ;
    px * qy - py * qx
}

/// The smallest box that holds the first `n` of the quadrilaterals (`n` at
/// least one).
pub open spec fn bounds_of(quads: Seq<Quad>, n: int) -> Bounds
    decreases n,
{
    if n <= 1 {
        quads[0].spec_bounds()
    } else {
        bounds_of(quads, n - 1).spec_union(quads[n - 1].spec_bounds())
    }
}

/// The box of the first `n` quadrilaterals holds every corner of each of
/// them, and lies in the world if they do.
pub proof fn lemma_bounds_of(quads: Seq<Quad>, n: int)
    requires
        1 <= n <= quads.len(),
    ensures
        forall|i: int|
            0 <= i < n ==> {
                &&& bounds_of(quads, n).spec_contains((#[trigger] quads[i]).a)
                &&& bounds_of(quads, n).spec_contains(quads[i].b)
                &&& bounds_of(quads, n).spec_contains(quads[i].c)
                &&& bounds_of(quads, n).spec_contains(quads[i].d)
            },
        (forall|i: int| 0 <= i < n ==> (#[trigger] quads[i]).in_world()) ==> bounds_of(
            quads,
            n,
        ).in_world(),
    decreases n,
{
    if n > 1 {
        lemma_bounds_of(quads, n - 1);
    }
}

/// The point lies in the box of the quadrilaterals and in one of them.
pub open spec fn region_contains(quads: Seq<Quad>, p: Pt2D) -> bool {
    bounds_of(quads, quads.len() as int).spec_contains(p) && exists|i: int|
        0 <= i < quads.len() && (#[trigger] quads[i]).spec_contains(p)
}

/// A polygon, held as the quadrilaterals that cover it.
#[derive(Debug)]
pub struct Polygon {
    quads: Vec<Quad>,
}

impl View for Polygon {
    type V = Seq<Quad>;

    closed spec fn view(&self) -> Seq<Quad> {
        self.quads@
    }
}

impl Polygon {
    /// What makes a sequence of quadrilaterals a polygon: there is at least
    /// one, and all of them lie in the world.
    pub open spec fn valid_quads(quads: Seq<Quad>) -> bool {
        quads.len() >= 1 && forall|i: int| 0 <= i < quads.len() ==> (#[trigger] quads[i]).in_world()
    }

    /// The polygon holds valid quadrilaterals.
    pub open spec fn wf(&self) -> bool {
        Self::valid_quads(self@)
    }

    /// The smallest box that holds the polygon.
    pub open spec fn spec_bounds(&self) -> Bounds {
        bounds_of(self@, self@.len() as int)
    }

    /// The point lies in the polygon's box and in one of its quadrilaterals.
    pub open spec fn spec_contains(&self, p: Pt2D) -> bool {
        region_contains(self@, p)
    }

    /// The polygon that the quadrilaterals cover, or nothing if there is
    /// none or one of them leaves the world.
    pub fn new(quads: Vec<Quad>) -> (r: Option<Polygon>)
        ensures
            r is Some <==> Self::valid_quads(quads@),
            r matches Some(p) ==> p@ == quads@ && p.wf(),
    {
        if quads.len() == 0 {
            return None;
        }
        let mut i: usize = 0;
        while i < quads.len()
            invariant
                i <= quads.len(),
                forall|j: int| 0 <= j < i ==> (#[trigger] quads@[j]).in_world(),
            decreases quads.len() - i,
        {
            let b: Bounds = quads[i].get_bounds();
            if b.min_x < -WORLD_LIMIT || b.max_x > WORLD_LIMIT || b.min_y < -WORLD_LIMIT || b.max_y
                > WORLD_LIMIT {
                assert(!quads@[i as int].in_world());
                return None;
            }
            i += 1;
        }
        Some(Polygon { quads })
    }

    /// Whether the polygon holds valid quadrilaterals. One made by
    /// [`Polygon::new`] always does.
    pub fn check(&self) -> (r: bool)
        ensures
            r == self.wf(),
    {
        if self.quads.len() == 0 {
            return false;
        }
        let mut i: usize = 0;
        while i < self.quads.len()
            invariant
                i <= self.quads.len(),
                forall|j: int| 0 <= j < i ==> (#[trigger] self@[j]).in_world(),
            decreases self.quads.len() - i,
        {
            let b: Bounds = self.quads[i].get_bounds();
            if b.min_x < -WORLD_LIMIT || b.max_x > WORLD_LIMIT || b.min_y < -WORLD_LIMIT || b.max_y
                > WORLD_LIMIT {
                assert(!self@[i as int].in_world());
                return false;
            }
            i += 1;
        }
        true
    }

    /// The polygon that the quadrilaterals cover.
    pub fn from_quads(quads: Vec<Quad>) -> (p: Polygon)
        requires
            Self::valid_quads(quads@),
        ensures
            p@ == quads@,
            p.wf(),
    {
        Polygon { quads }
    }

    /// The quadrilaterals that cover the polygon.
    pub fn quads(&self) -> (q: &Vec<Quad>)
        ensures
            q@ == self@,
    {
        &self.quads
    }

    /// The smallest box that holds the polygon.
    pub fn get_bounds(&self) -> (b: Bounds)
        requires
            self.wf(),
        ensures
            b == self.spec_bounds(),
            b.in_world(),
    {
        let mut b: Bounds = self.quads[0].get_bounds();
        let mut i: usize = 1;
        while i < self.quads.len()
            invariant
                1 <= i <= self.quads.len(),
                b == bounds_of(self@, i as int),
            decreases self.quads.len() - i,
        {
            b = b.union(&self.quads[i].get_bounds());
            i += 1;
        }
        proof {
            lemma_bounds_of(self@, self@.len() as int);
        }
        b
    }

    /// Whether the point lies in the polygon. A point outside the polygon's
    /// box is outside the polygon, wherever it is.
    pub fn contains_pt(&self, p: Pt2D) -> (r: bool)
        requires
            self.wf(),
        ensures
            r == self.spec_contains(p),
    {
        let b: Bounds = self.get_bounds();
        if !b.contains(p) {
            return false;
        }
        let mut i: usize = 0;
        while i < self.quads.len()
            invariant
                i <= self.quads.len(),
                self.wf(),
                p.in_world(),
                self.spec_bounds().spec_contains(p),
                forall|j: int| 0 <= j < i ==> !(#[trigger] self@[j]).spec_contains(p),
            decreases self.quads.len() - i,
        {
            assert(self@[i as int].in_world());
            if self.quads[i].contains_pt(p) {
                return true;
            }
            i += 1;
        }
        false
    }
}

} // verus!
