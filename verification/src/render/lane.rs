//! A lane made ready to draw: its footprint, the lines across its ends, its
//! markings, and the anchors of its label.

use crate::config::RenderConfig;
use crate::control::ControlMap;
use crate::geom::line::{perp_line, spec_perp_line_at, Line};
use crate::geom::polygon::{Bounds, Polygon, Quad};
use crate::geom::polyline::{segment, spec_lines};
use crate::geom::pt::Pt2D;
use crate::geom::thicken::spec_thicken;
use crate::map_model::{Intersection, Lane, LaneID, LaneType, Road, StreetMap};
use crate::render::marking::{
    calculate_driving_lines, calculate_id_positions, calculate_parking_lines,
    calculate_sidewalk_lines, calculate_stop_sign_line, spec_driving_marking,
    spec_fits_stop_line, spec_has_label, spec_id_positions, spec_parking_marking,
    spec_sidewalk_marking, spec_stop_marking, Colors, Marking, MarkingView,
};
use vstd::prelude::*;

verus! {

/// The markings as plain values.
pub open spec fn markings_view(markings: Seq<Marking>) -> Seq<MarkingView> {
    Seq::new(markings.len(), |i: int| markings[i]@)
}

/// The line that shows a road's orientation, on the road's canonical lane:
/// the road's own centre line.
pub open spec fn spec_orientation_part(lane: &Lane, road: &Road, cfg: RenderConfig) -> Seq<
    MarkingView,
> {
    if road.spec_is_canonical_lane(lane.id) {
        seq![
            MarkingView {
                lines: spec_lines(road.center_pts@),
                color: Colors::RoadOrientation,
                thickness: cfg.orientation_thickness,
                round: true,
            },
        ]
    } else {
        Seq::empty()
    }
}

/// The marking that a lane gets for what it is: ticks on a sidewalk, marks
/// on a parking lane, dashes on a driving lane that is not the innermost of
/// its direction, nothing on any other lane.
pub open spec fn spec_type_part(lane: &Lane, road: &Road, cfg: RenderConfig) -> Seq<MarkingView> {
    match lane.lane_type {
        LaneType::Sidewalk => seq![spec_sidewalk_marking(lane.lane_center_pts@, cfg)],
        LaneType::Parking => seq![spec_parking_marking(lane.lane_center_pts@, cfg)],
        LaneType::Driving => if road.spec_dir_and_offset(lane.id).unwrap().1 == 0 {
            Seq::empty()
        } else {
            seq![spec_driving_marking(lane.lane_center_pts@, cfg)]
        },
        LaneType::Biking => Seq::empty(),
    }
}

/// The lane must stop at its end: it is a driving lane, the intersection it
/// leads to has no traffic signal, and the lane has no priority at the stop
/// signs there.
pub open spec fn spec_must_stop(lane: &Lane, dst: &Intersection, control_map: &ControlMap)
    -> bool {
    &&& lane.lane_type == LaneType::Driving
    &&& !dst.has_traffic_signal
    &&& !control_map.spec_is_priority_lane(lane.dst_i, lane.id)
}

/// The stop line, on a lane that must stop and is long enough for the line.
pub open spec fn spec_stop_part(
    lane: &Lane,
    dst: &Intersection,
    control_map: &ControlMap,
    cfg: RenderConfig,
) -> Seq<MarkingView> {
    if spec_must_stop(lane, dst, control_map) && spec_fits_stop_line(lane.lane_center_pts@, cfg) {
        seq![spec_stop_marking(lane.lane_center_pts@, cfg)]
    } else {
        Seq::empty()
    }
}

/// The markings of a lane, in the order in which they are drawn: the road's
/// orientation, the marking for the lane's kind, the stop line.
pub open spec fn spec_markings(
    lane: &Lane,
    road: &Road,
    dst: &Intersection,
    control_map: &ControlMap,
    cfg: RenderConfig,
) -> Seq<MarkingView> {
    spec_orientation_part(lane, road, cfg) + spec_type_part(lane, road, cfg) + spec_stop_part(
        lane,
        dst,
        control_map,
        cfg,
    )
}

/// The line across the start of a lane: as long as the lane is wide, with
/// the first point of the centre line as its middle.
pub open spec fn spec_start_crossing(pts: Seq<Pt2D>, cfg: RenderConfig) -> Line {
    spec_perp_line_at(pts[0], segment(pts, 0).spec_angle(), cfg.lane_thickness as int)
}

/// The line across the end of a lane: as long as the lane is wide, with the
/// last point of the centre line as its middle, and turned as the line
/// across the start of the lane walked backward would be.
pub open spec fn spec_end_crossing(pts: Seq<Pt2D>, cfg: RenderConfig) -> Line {
    spec_perp_line_at(
        pts[pts.len() - 1],
        segment(pts, pts.len() - 2).spec_reverse().spec_angle(),
        cfg.lane_thickness as int,
    )
}

/// The anchors of a lane's label: two if the lane gets a label, else none.
pub open spec fn spec_label_anchors(lane: &Lane, cfg: RenderConfig) -> Seq<Pt2D> {
    if spec_has_label(lane.lane_type, lane.lane_center_pts@, cfg) {
        spec_id_positions(lane.lane_center_pts@, cfg)
    } else {
        Seq::empty()
    }
}

/// A lane made ready to draw, as a plain value.
pub struct DrawLaneView {
    pub id: LaneID,
    pub polygon: Seq<Quad>,
    pub start_crossing: Line,
    pub end_crossing: Line,
    pub markings: Seq<MarkingView>,
    pub draw_id_at: Seq<Pt2D>,
}

/// What is drawn for a lane, as a function of the lane, its road, the
/// intersection it leads to, and the stop signs there.
pub open spec fn spec_draw_lane(
    lane: &Lane,
    road: &Road,
    dst: &Intersection,
    control_map: &ControlMap,
    cfg: RenderConfig,
) -> DrawLaneView {
    DrawLaneView {
        id: lane.id,
        polygon: spec_thicken(lane.lane_center_pts@, cfg.lane_thickness as int),
        start_crossing: spec_start_crossing(lane.lane_center_pts@, cfg),
        end_crossing: spec_end_crossing(lane.lane_center_pts@, cfg),
        markings: spec_markings(lane, road, dst, control_map, cfg),
        draw_id_at: spec_label_anchors(lane, cfg),
    }
}

/// A lane made ready to draw.
#[derive(Debug)]
pub struct DrawLane {
    pub id: LaneID,
    pub polygon: Polygon,
    pub start_crossing: Line,
    pub end_crossing: Line,
    pub markings: Vec<Marking>,
    pub draw_id_at: Vec<Pt2D>,
}

impl View for DrawLane {
    type V = DrawLaneView;

    open spec fn view(&self) -> DrawLaneView {
        DrawLaneView {
            id: self.id,
            polygon: self.polygon@,
            start_crossing: self.start_crossing,
            end_crossing: self.end_crossing,
            markings: markings_view(self.markings@),
            draw_id_at: self.draw_id_at@,
        }
    }
}

impl DrawLane {
    /// What must hold for a lane to be drawn: the lane and the measures are
    /// sound, the lane's road and the intersection it leads to are in the
    /// map, the road is sound and, for a driving lane, counts the lane among
    /// its own; and if a driving lane leads to an intersection without a
    /// traffic signal, the stop signs there are on record.
    pub open spec fn can_draw(
        lane: &Lane,
        map: &StreetMap,
        control_map: &ControlMap,
        cfg: &RenderConfig,
    ) -> bool {
        &&& lane.wf()
        &&& cfg.wf()
        &&& lane.parent.0 < map.roads@.len()
        &&& lane.dst_i.0 < map.intersections@.len()
        &&& map.roads@[lane.parent.0 as int].wf()
        &&& lane.lane_type == LaneType::Driving ==> map.roads@[lane.parent.0 as int].has_lane(
            lane.id,
        )
        &&& lane.lane_type == LaneType::Driving && !map.intersections@[lane.dst_i.0 as int].has_traffic_signal
            ==> control_map.has_stop_sign(lane.dst_i)
    }

    /// The footprint is a sound polygon.
    pub open spec fn wf(&self) -> bool {
        self.polygon.wf()
    }

    /// Makes a lane ready to draw.
    pub fn new(lane: &Lane, map: &StreetMap, control_map: &ControlMap, cfg: &RenderConfig) -> (r:
        DrawLane)
        requires
            Self::can_draw(lane, map, control_map, cfg),
        ensures
            r@ == spec_draw_lane(
                lane,
                &map.roads@[lane.parent.0 as int],
                &map.intersections@[lane.dst_i.0 as int],
                control_map,
                *cfg,
            ),
            r.wf(),
    {
        let road: &Road = map.get_r(lane.parent);
        let dst: &Intersection = map.get_i(lane.dst_i);
        let start: Line = perp_line(lane.lane_center_pts.first_line(), cfg.lane_thickness);
        let end: Line = perp_line(lane.lane_center_pts.last_line().reverse(), cfg.lane_thickness);
        let polygon: Polygon = lane.lane_center_pts.make_polygons_blindly(cfg.lane_thickness);

        let mut markings: Vec<Marking> = Vec::new();
        if road.is_canonical_lane(lane.id) {
            markings.push(
                Marking {
                    lines: road.center_pts.lines(),
                    color: Colors::RoadOrientation,
                    thickness: cfg.orientation_thickness,
                    round: true,
                },
            );
        }
        assert(markings_view(markings@) =~= spec_orientation_part(lane, road, *cfg));
        let ghost first = markings_view(markings@);
        match lane.lane_type {
            LaneType::Sidewalk => {
                markings.push(calculate_sidewalk_lines(lane, cfg));
            },
            LaneType::Parking => {
                markings.push(calculate_parking_lines(lane, cfg));
            },
            LaneType::Driving => {
                match calculate_driving_lines(lane, road, cfg) {
                    Some(m) => {
                        markings.push(m);
                    },
                    None => {},
                }
            },
            LaneType::Biking => {},
        }
        assert(markings_view(markings@) =~= first + spec_type_part(lane, road, *cfg));
        let ghost second = markings_view(markings@);
        if lane.is_driving() && !dst.has_traffic_signal {
            match calculate_stop_sign_line(lane, control_map, cfg) {
                Some(m) => {
                    markings.push(m);
                },
                None => {},
            }
        }
        assert(markings_view(markings@) =~= second + spec_stop_part(lane, dst, control_map, *cfg));

        let draw_id_at: Vec<Pt2D> = match calculate_id_positions(lane, cfg) {
            Some(v) => v,
            None => Vec::new(),
        };
        DrawLane {
            id: lane.id,
            polygon,
            markings,
            start_crossing: start,
            end_crossing: end,
            draw_id_at,
        }
    }

    /// Makes a lane ready to draw, or nothing where [`DrawLane::can_draw`]
    /// does not hold.
    pub fn try_new(
        lane: &Lane,
        map: &StreetMap,
        control_map: &ControlMap,
        cfg: &RenderConfig,
    ) -> (r: Option<DrawLane>)
        ensures
            r is Some <==> Self::can_draw(lane, map, control_map, cfg),
            r matches Some(d) ==> d.wf() && d@ == spec_draw_lane(
                lane,
                &map.roads@[lane.parent.0 as int],
                &map.intersections@[lane.dst_i.0 as int],
                control_map,
                *cfg,
            ),
    {
        if !lane.check() || !cfg.check() {
            return None;
        }
        if lane.parent.0 >= map.roads.len() || lane.dst_i.0 >= map.intersections.len() {
            return None;
        }
        let road: &Road = map.get_r(lane.parent);
        if !road.check() {
            return None;
        }
        if lane.is_driving() {
            if road.dir_and_offset(lane.id).is_none() {
                return None;
            }
            if !map.get_i(lane.dst_i).has_traffic_signal && control_map.stop_sign(
                lane.dst_i,
            ).is_none() {
                return None;
            }
        }
        Some(DrawLane::new(lane, map, control_map, cfg))
    }

    /// Whether the footprint is a sound polygon. That of a lane made by
    /// [`DrawLane::new`] always is.
    pub fn check(&self) -> (r: bool)
        ensures
            r == self.wf(),
    {
        self.polygon.check()
    }

    /// The line across the end of the lane, at right angles to the lane.
    pub fn get_end_crossing(&self) -> (l: &Line)
        ensures
            *l == self@.end_crossing,
    {
        &self.end_crossing
    }

    /// The line across the start of the lane, at right angles to the lane.
    pub fn get_start_crossing(&self) -> (l: &Line)
        ensures
            *l == self@.start_crossing,
    {
        &self.start_crossing
    }

    /// The markings, in the order in which they are drawn.
    pub fn markings(&self) -> (m: &Vec<Marking>)
        ensures
            markings_view(m@) == self@.markings,
    {
        &self.markings
    }

    /// The anchors of the label: two or none.
    pub fn label_anchors(&self) -> (a: &Vec<Pt2D>)
        ensures
            a@ == self@.draw_id_at,
    {
        &self.draw_id_at
    }

    /// The lane's name.
    pub fn get_id(&self) -> (id: LaneID)
        ensures
            id == self@.id,
    {
        self.id
    }

    /// The smallest box that holds the lane's footprint.
    pub fn get_bounds(&self) -> (b: Bounds)
        requires
            self.wf(),
        ensures
            b == crate::geom::polygon::bounds_of(self@.polygon, self@.polygon.len() as int),
    {
        self.polygon.get_bounds()
    }

    /// Whether the point lies on the lane's footprint.
    pub fn contains_pt(&self, pt: Pt2D) -> (r: bool)
        requires
            self.wf(),
        ensures
            r == crate::geom::polygon::region_contains(self@.polygon, pt),
    {
        self.polygon.contains_pt(pt)
    }
}

/// What is drawn for lane `i` of the map.
pub open spec fn spec_draw_lane_of(
    map: &StreetMap,
    control_map: &ControlMap,
    cfg: RenderConfig,
    i: int,
) -> DrawLaneView {
    spec_draw_lane(
        &map.lanes@[i],
        &map.roads@[map.lanes@[i].parent.0 as int],
        &map.intersections@[map.lanes@[i].dst_i.0 as int],
        control_map,
        cfg,
    )
}

/// Makes every lane of the map ready to draw, from nothing but the map, the
/// stop signs and the measures: lane `i` of the result is lane `i` of the
/// map. Gives nothing if one of the lanes cannot be drawn.
pub fn draw_all_lanes(map: &StreetMap, control_map: &ControlMap, cfg: &RenderConfig) -> (r: Option<
    Vec<DrawLane>,
>)
    ensures
        r is Some <==> forall|i: int|
            0 <= i < map.lanes@.len() ==> DrawLane::can_draw(
                #[trigger] &map.lanes@[i],
                map,
                control_map,
                cfg,
            ),
        r matches Some(v) ==> v@.len() == map.lanes@.len() && forall|i: int|
            0 <= i < v@.len() ==> (#[trigger] v@[i]).wf() && v@[i]@ == spec_draw_lane_of(
                map,
                control_map,
                *cfg,
                i,
            ),
{
    let mut out: Vec<DrawLane> = Vec::new();
    let mut i: usize = 0;
    while i < map.lanes.len()
        invariant
            i <= map.lanes.len(),
            out@.len() == i,
            forall|j: int|
                0 <= j < i ==> DrawLane::can_draw(#[trigger] &map.lanes@[j], map, control_map, cfg),
            forall|j: int|
                0 <= j < i ==> (#[trigger] out@[j]).wf() && out@[j]@ == spec_draw_lane_of(
                    map,
                    control_map,
                    *cfg,
                    j,
                ),
        decreases map.lanes.len() - i,
    {
        match DrawLane::try_new(&map.lanes[i], map, control_map, cfg) {
            Some(d) => {
                out.push(d);
            },
            None => {
                return None;
            },
        }
        i += 1;
    }
    Some(out)
}

} // verus!
