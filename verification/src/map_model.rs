//! The records of the map that a lane is drawn from: lanes, roads,
//! intersections, and the map that holds them.

use crate::geom::polyline::{path_length, pts_within, PolyLine};
use crate::geom::pt::{Pt2D, MAP_LIMIT};
use vstd::prelude::*;

verus! {

/// The name of a lane: its index in the map.
#[derive(Clone, Copy, Debug, PartialEq, Eq, Structural, Hash)]
pub struct LaneID(pub usize);

/// The name of a road: its index in the map.
#[derive(Clone, Copy, Debug, PartialEq, Eq, Structural, Hash)]
pub struct RoadID(pub usize);

/// The name of an intersection: its index in the map.
#[derive(Clone, Copy, Debug, PartialEq, Eq, Structural, Hash)]
pub struct IntersectionID(pub usize);

/// What a lane is for.
#[derive(Clone, Copy, Debug, PartialEq, Eq, Structural)]
pub enum LaneType {
    Driving,
    Parking,
    Sidewalk,
    Biking,
}

/// Every point of `pts` lies within [`MAP_LIMIT`] of the origin.
pub fn points_in_map(pts: &Vec<Pt2D>) -> (r: bool)
    ensures
        r == pts_within(pts@, MAP_LIMIT as int),
{
    let mut i: usize = 0;
    while i < pts.len()
        invariant
            i <= pts.len(),
            forall|j: int| 0 <= j < i ==> (#[trigger] pts@[j]).within(MAP_LIMIT as int),
        decreases pts.len() - i,
    {
        let p: Pt2D = pts[i];
        if p.x < -MAP_LIMIT || p.x > MAP_LIMIT || p.y < -MAP_LIMIT || p.y > MAP_LIMIT {
            assert(!pts@[i as int].within(MAP_LIMIT as int));
            return false;
        }
        i += 1;
    }
    true
}

/// A lane: one channel of a road, for traffic, parking or walking.
#[derive(Debug)]
pub struct Lane {
    pub id: LaneID,
    pub parent: RoadID,
    pub lane_type: LaneType,
    pub lane_center_pts: PolyLine,
    pub src_i: IntersectionID,
    pub dst_i: IntersectionID,
    /// Set by whoever built the map where the lane's geometry is in doubt.
    pub probably_broken: bool,
}

impl Lane {
    /// The centre line is a polyline of positive length within the map.
    pub open spec fn wf(&self) -> bool {
        &&& self.lane_center_pts.wf()
        &&& pts_within(self.lane_center_pts@, MAP_LIMIT as int)
        &&& self.lane_center_pts.spec_length() > 0
    }

    /// The length of the centre line, in the model.
    pub open spec fn spec_length(&self) -> nat {
        self.lane_center_pts.spec_length()
    }

    /// What makes a sequence of points the centre line of a lane: they make
    /// a polyline, lie within the map, and the path through them has a length.
    pub open spec fn valid_centre_line(pts: Seq<Pt2D>) -> bool {
        &&& PolyLine::valid_points(pts)
        &&& pts_within(pts, MAP_LIMIT as int)
        &&& path_length(pts) > 0
    }

    /// The lane with the centre line through `pts`, or nothing if they make
    /// no centre line: a single point, points that all coincide, or a point
    /// outside the map.
    pub fn new(
        id: LaneID,
        parent: RoadID,
        lane_type: LaneType,
        pts: Vec<Pt2D>,
        src_i: IntersectionID,
        dst_i: IntersectionID,
        probably_broken: bool,
    ) -> (r: Option<Lane>)
        ensures
            r is Some <==> Self::valid_centre_line(pts@),
            r matches Some(l) ==> l.wf() && l.lane_center_pts@ == pts@ && l.id == id && l.parent
                == parent && l.lane_type == lane_type && l.src_i == src_i && l.dst_i == dst_i
                && l.probably_broken == probably_broken,
    {
        if !points_in_map(&pts) {
            return None;
        }
        match PolyLine::new(pts) {
            Some(lane_center_pts) => {
                if lane_center_pts.length() == 0 {
                    return None;
                }
                Some(
                    Lane { id, parent, lane_type, lane_center_pts, src_i, dst_i, probably_broken },
                )
            },
            None => None,
        }
    }

    /// Whether the centre line is a polyline of positive length within the map.
    pub fn check(&self) -> (r: bool)
        ensures
            r == self.wf(),
    {
        if !points_in_map(self.lane_center_pts.points()) {
            return false;
        }
        if !self.lane_center_pts.check() {
            return false;
        }
        self.lane_center_pts.length() > 0
    }

    /// The length of the centre line.
    pub fn length(&self) -> (len: u64)
        requires
            self.wf(),
        ensures
            len == self.spec_length(),
            0 < len <= 0x1_0000_0000 * (self.lane_center_pts@.len() - 1),
    {
        self.lane_center_pts.length()
    }

    /// Whether the lane is for driving.
    pub fn is_driving(&self) -> (r: bool)
        ensures
            r == (self.lane_type == LaneType::Driving),
    {
        match self.lane_type {
            LaneType::Driving => true,
            _ => false,
        }
    }

    /// Whether the lane is for parking.
    pub fn is_parking(&self) -> (r: bool)
        ensures
            r == (self.lane_type == LaneType::Parking),
    {
        match self.lane_type {
            LaneType::Parking => true,
            _ => false,
        }
    }

    /// Whether the lane is a sidewalk.
    pub fn is_sidewalk(&self) -> (r: bool)
        ensures
            r == (self.lane_type == LaneType::Sidewalk),
    {
        match self.lane_type {
            LaneType::Sidewalk => true,
            _ => false,
        }
    }

    /// Whether the lane is for bicycles.
    pub fn is_biking(&self) -> (r: bool)
        ensures
            r == (self.lane_type == LaneType::Biking),
    {
        match self.lane_type {
            LaneType::Biking => true,
            _ => false,
        }
    }
}

/// The number of parking spots on a lane of length `length` with spots of
/// length `spot_length`: as many as fit, less the two next to the
/// intersections at the lane's ends.
pub open spec fn spec_parking_spots(length: int, spot_length: int) -> int {
    if spot_length > 0 && length / spot_length - 2 >= 1 {
        length / spot_length - 2
    } else {
        0
    }
}

/// The number of parking spots on a lane of length `length` with spots of
/// length `spot_length`.
pub fn number_parking_spots(length: u64, spot_length: u64) -> (n: u64)
    ensures
        n == spec_parking_spots(length as int, spot_length as int),
{
    if spot_length == 0 {
        return 0;
    }
    let fit: u64 = length / spot_length;
    if fit >= 3 {
        fit - 2
    } else {
        0
    }
}

/// The first place at or after `i` where `lane` stands in `lanes`.
pub open spec fn position_from(lanes: Seq<LaneID>, lane: LaneID, i: int) -> Option<int>
    decreases lanes.len() - i,
{
    if i < 0 || i >= lanes.len() {
        None
    } else if lanes[i] == lane {
        Some(i)
    } else {
        position_from(lanes, lane, i + 1)
    }
}

/// The first place where `lane` stands in `lanes`.
pub open spec fn position(lanes: Seq<LaneID>, lane: LaneID) -> Option<int> {
    position_from(lanes, lane, 0)
}

/// The first place of a lane in a list is a place where it stands, and it
/// has one exactly when the list holds the lane.
pub proof fn lemma_position_from(lanes: Seq<LaneID>, lane: LaneID, i: int)
    requires
        0 <= i,
    ensures
        match position_from(lanes, lane, i) {
            Some(k) => i <= k < lanes.len() && lanes[k] == lane && forall|j: int|
                i <= j < k ==> lanes[j] != lane,
            None => forall|j: int| i <= j < lanes.len() ==> lanes[j] != lane,
        },
    decreases lanes.len() - i,
{
    if i < lanes.len() && lanes[i] != lane {
        lemma_position_from(lanes, lane, i + 1);
    }
}

/// Finds the first place where `lane` stands in `lanes`.
pub fn find_lane(lanes: &Vec<LaneID>, lane: LaneID) -> (r: Option<usize>)
    ensures
        r is Some <==> position(lanes@, lane) is Some,
        r matches Some(k) ==> position(lanes@, lane) == Some(k as int),
{
    let mut i: usize = 0;
    while i < lanes.len()
        invariant
            i <= lanes.len(),
            position_from(lanes@, lane, i as int) == position(lanes@, lane),
        decreases lanes.len() - i,
    {
        if lanes[i].0 == lane.0 {
            return Some(i);
        }
        i += 1;
    }
    None
}

/// A road: lanes side by side, in two directions, about one centre line.
#[derive(Debug)]
pub struct Road {
    pub id: RoadID,
    /// Free-form tags, for display only.
    pub osm_tags: Vec<(String, String)>,
    pub osm_way_id: i64,
    /// The lanes that run with the centre line, from the centre outward.
    pub children_forwards: Vec<LaneID>,
    /// The lanes that run against the centre line, from the centre outward.
    pub children_backwards: Vec<LaneID>,
    pub center_pts: PolyLine,
}

impl Road {
    /// The centre line is a polyline.
    pub open spec fn wf(&self) -> bool {
        self.center_pts.wf()
    }

    /// The road's canonical lane is its first lane that runs with the centre
    /// line; a road without such lanes has none.
    pub open spec fn spec_is_canonical_lane(&self, lane: LaneID) -> bool {
        self.children_forwards@.len() > 0 && self.children_forwards@[0] == lane
    }

    /// Where the lane lies in the road: whether it runs with the centre line,
    /// and how many lanes of its direction lie between it and the centre
    /// line. Nothing for a lane that is not of this road.
    pub open spec fn spec_dir_and_offset(&self, lane: LaneID) -> Option<(bool, int)> {
        match position(self.children_forwards@, lane) {
            Some(k) => Some((true, k)),
            None => match position(self.children_backwards@, lane) {
                Some(k) => Some((false, k)),
                None => None,
            },
        }
    }

    /// The lane is one of this road's.
    pub open spec fn has_lane(&self, lane: LaneID) -> bool {
        self.spec_dir_and_offset(lane) is Some
    }

    /// Whether the centre line is a polyline.
    pub fn check(&self) -> (r: bool)
        ensures
            r == self.wf(),
    {
        self.center_pts.check()
    }

    /// Whether `lane` is the lane along which the road's orientation is drawn.
    pub fn is_canonical_lane(&self, lane: LaneID) -> (r: bool)
        ensures
            r == self.spec_is_canonical_lane(lane),
    {
        self.children_forwards.len() > 0 && self.children_forwards[0].0 == lane.0
    }

    /// Where the lane lies in the road: whether it runs with the centre line,
    /// and its place counted from the centre line outward, zero for the
    /// innermost lane. Nothing for a lane that is not of this road.
    pub fn dir_and_offset(&self, lane: LaneID) -> (r: Option<(bool, usize)>)
        ensures
            r is Some <==> self.has_lane(lane),
            r matches Some((dir, k)) ==> self.spec_dir_and_offset(lane) == Some((dir, k as int)),
    {
        match find_lane(&self.children_forwards, lane) {
            Some(k) => Some((true, k)),
            None => match find_lane(&self.children_backwards, lane) {
                Some(k) => Some((false, k)),
                None => None,
            },
        }
    }
}

/// An intersection: where lanes begin and end.
#[derive(Clone, Copy, Debug)]
pub struct Intersection {
    pub id: IntersectionID,
    pub has_traffic_signal: bool,
    /// Height above the map's datum, in millimetres.
    pub elevation: i64,
}

/// The map: roads, lanes and intersections, each found by its index.
#[derive(Debug)]
pub struct StreetMap {
    pub roads: Vec<Road>,
    pub lanes: Vec<Lane>,
    pub intersections: Vec<Intersection>,
}

impl StreetMap {
    /// The lane's references lead somewhere: its road and both its
    /// intersections are in the map, and its road holds a centre line and
    /// counts the lane among its own.
    pub open spec fn lane_fits(&self, lane: &Lane) -> bool {
        &&& lane.parent.0 < self.roads@.len()
        &&& lane.src_i.0 < self.intersections@.len()
        &&& lane.dst_i.0 < self.intersections@.len()
        &&& self.roads@[lane.parent.0 as int].wf()
        &&& self.roads@[lane.parent.0 as int].has_lane(lane.id)
    }

    /// Every record is sound and stands at the index that its name gives,
    /// and every lane's references lead somewhere.
    pub open spec fn wf(&self) -> bool {
        &&& forall|i: int|
            0 <= i < self.roads@.len() ==> (#[trigger] self.roads@[i]).wf() && self.roads@[i].id.0
                == i
        &&& forall|i: int|
            0 <= i < self.lanes@.len() ==> (#[trigger] self.lanes@[i]).wf() && self.lanes@[i].id.0
                == i && self.lane_fits(&self.lanes@[i])
        &&& forall|i: int|
            0 <= i < self.intersections@.len() ==> (#[trigger] self.intersections@[i]).id.0 == i
    }

    /// Whether the lane's references lead somewhere in this map.
    pub fn check_lane(&self, lane: &Lane) -> (r: bool)
        ensures
            r == self.lane_fits(lane),
    {
        if lane.parent.0 >= self.roads.len() || lane.src_i.0 >= self.intersections.len()
            || lane.dst_i.0 >= self.intersections.len() {
            return false;
        }
        let road: &Road = &self.roads[lane.parent.0];
        road.check() && road.dir_and_offset(lane.id).is_some()
    }

    /// Whether the map is sound.
    pub fn check(&self) -> (r: bool)
        ensures
            r == self.wf(),
    {
        let mut i: usize = 0;
        while i < self.roads.len()
            invariant
                i <= self.roads.len(),
                forall|j: int|
                    0 <= j < i ==> (#[trigger] self.roads@[j]).wf() && self.roads@[j].id.0 == j,
            decreases self.roads.len() - i,
        {
            if !self.roads[i].check() || self.roads[i].id.0 != i {
                return false;
            }
            i += 1;
        }
        let mut i: usize = 0;
        while i < self.lanes.len()
            invariant
                i <= self.lanes.len(),
                forall|j: int|
                    0 <= j < i ==> (#[trigger] self.lanes@[j]).wf() && self.lanes@[j].id.0 == j
                        && self.lane_fits(&self.lanes@[j]),
            decreases self.lanes.len() - i,
        {
            if !self.lanes[i].check() || self.lanes[i].id.0 != i || !self.check_lane(
                &self.lanes[i],
            ) {
                return false;
            }
            i += 1;
        }
        let mut i: usize = 0;
        while i < self.intersections.len()
            invariant
                i <= self.intersections.len(),
                forall|j: int| 0 <= j < i ==> (#[trigger] self.intersections@[j]).id.0 == j,
            decreases self.intersections.len() - i,
        {
            if self.intersections[i].id.0 != i {
                return false;
            }
            i += 1;
        }
        true
    }

    /// The road named `id`.
    pub fn get_r(&self, id: RoadID) -> (r: &Road)
        requires
            id.0 < self.roads@.len(),
        ensures
            *r == self.roads@[id.0 as int],
    {
        &self.roads[id.0]
    }

    /// The lane named `id`.
    pub fn get_l(&self, id: LaneID) -> (l: &Lane)
        requires
            id.0 < self.lanes@.len(),
        ensures
            *l == self.lanes@[id.0 as int],
    {
        &self.lanes[id.0]
    }

    /// The intersection named `id`.
    pub fn get_i(&self, id: IntersectionID) -> (i: &Intersection)
        requires
            id.0 < self.intersections@.len(),
        ensures
            *i == self.intersections@[id.0 as int],
    {
        &self.intersections[id.0]
    }
}

} // verus!
