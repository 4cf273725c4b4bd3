//! What holds of every lane that is made ready to draw.

use crate::config::RenderConfig;
use crate::control::ControlMap;
use crate::geom::line::{law_perp_line_centred, lemma_dist_along_between};
use crate::geom::polygon::{bounds_of, lemma_bounds_of, region_contains, Quad};
use crate::geom::polyline::{
    lemma_locate_from, lemma_lookup, locate, lookup, path_length, segment,
};
use crate::geom::pt::{Pt2D, MAP_LIMIT};
use crate::geom::thicken::{
    lemma_thick_quad, lemma_thick_quad_contains, spec_thick_quad, spec_thicken, MIN_WIDTH,
};
use crate::map_model::{spec_parking_spots, Intersection, Lane, LaneID, LaneType, Road};
use crate::render::lane::{
    spec_draw_lane, spec_label_anchors, spec_markings, spec_must_stop, spec_orientation_part, spec_stop_part,
    spec_type_part,
};
use crate::render::marking::{
    spec_crossing_at, spec_driving_lines, spec_driving_marking, spec_fits_stop_line,
    spec_lane_edge, spec_parking_marking, spec_sidewalk_lines, spec_stop_marking, Colors,
    MarkingView,
};
use crate::num::lemma_div_bracket;
use vstd::prelude::*;

verus! {

/// The number of markings of one colour.
pub open spec fn count_color(markings: Seq<MarkingView>, color: Colors) -> nat
    decreases markings.len(),
{
    if markings.len() == 0 {
        0
    } else {
        count_color(markings.drop_last(), color) + if markings.last().color == color {
            1nat
        } else {
            0nat
        }
    }
}

/// Counting through two lists in a row counts each of them.
pub proof fn lemma_count_concat(a: Seq<MarkingView>, b: Seq<MarkingView>, color: Colors)
    ensures
        count_color(a + b, color) == count_color(a, color) + count_color(b, color),
    decreases b.len(),
{
    if b.len() == 0 {
        assert(a + b =~= a);
    } else {
        assert((a + b).drop_last() =~= a + b.drop_last());
        assert((a + b).last() == b.last());
        lemma_count_concat(a, b.drop_last(), color);
    }
}

/// A list of at most one marking counts one if it holds a marking of the
/// colour, and zero otherwise.
pub proof fn lemma_count_short(a: Seq<MarkingView>, color: Colors)
    requires
        a.len() <= 1,
    ensures
        count_color(a, color) == if a.len() == 1 && a[0].color == color {
            1nat
        } else {
            0nat
        },
{
    reveal_with_fuel(count_color, 2);
    if a.len() == 1 {
        assert(a.drop_last().len() == 0);
    }
}

/// How many markings of one colour a lane has: those of its three parts.
proof fn lemma_count_markings(
    lane: &Lane,
    road: &Road,
    dst: &Intersection,
    control_map: &ControlMap,
    cfg: RenderConfig,
    color: Colors,
)
    ensures
        count_color(spec_markings(lane, road, dst, control_map, cfg), color) == count_color(
            spec_orientation_part(lane, road, cfg),
            color,
        ) + count_color(spec_type_part(lane, road, cfg), color) + count_color(
            spec_stop_part(lane, dst, control_map, cfg),
            color,
        ),
        spec_orientation_part(lane, road, cfg).len() <= 1,
        spec_type_part(lane, road, cfg).len() <= 1,
        spec_stop_part(lane, dst, control_map, cfg).len() <= 1,
{
    let a = spec_orientation_part(lane, road, cfg);
    let b = spec_type_part(lane, road, cfg);
    let c = spec_stop_part(lane, dst, control_map, cfg);
    lemma_count_concat(a + b, c, color);
    lemma_count_concat(a, b, color);
}

/// Every point of a lane's centre line lies on the footprint of the lane
/// made ready to draw, if the lane is at least [`MIN_WIDTH`] wide.
pub proof fn law_footprint_contains_centre_line(
    lane: &Lane,
    road: &Road,
    dst: &Intersection,
    control_map: &ControlMap,
    cfg: RenderConfig,
    dist: int,
)
    requires
        lane.wf(),
        cfg.wf(),
        cfg.lane_thickness >= MIN_WIDTH,
        0 <= dist <= lane.spec_length(),
    ensures
        lookup(lane.lane_center_pts@, dist) is Some,
        region_contains(
            spec_draw_lane(lane, road, dst, control_map, cfg).polygon,
            lookup(lane.lane_center_pts@, dist).unwrap().0,
        ),
{
    let pts = lane.lane_center_pts@;
    let width = cfg.lane_thickness as int;
    let quads = spec_thicken(pts, width);
    lemma_lookup(pts, dist, MAP_LIMIT as int);
    lemma_locate_from(pts, 0, dist);
    let k = locate(pts, dist).unwrap().0;
    let rest = locate(pts, dist).unwrap().1;
    let l = segment(pts, k);
    let p = l.spec_dist_along(rest);
    assert(pts[k].within(MAP_LIMIT as int) && pts[k + 1].within(MAP_LIMIT as int));
    lemma_thick_quad_contains(l, width, rest);
    lemma_thick_quad(l, width);
    lemma_dist_along_between(l, rest);
    assert(quads[k] == spec_thick_quad(l, width));
    lemma_bounds_of(quads, quads.len() as int);
    let b = bounds_of(quads, quads.len() as int);
    assert(b.spec_contains(quads[k].a) && b.spec_contains(quads[k].b) && b.spec_contains(
        quads[k].c,
    ) && b.spec_contains(quads[k].d));
    assert(b.spec_contains(p));
    assert(quads[k].spec_contains(p));
}

/// The point half way along a lane's centre line lies on the footprint of
/// the lane made ready to draw, if the lane is at least [`MIN_WIDTH`] wide.
pub proof fn law_footprint_contains_midpoint(
    lane: &Lane,
    road: &Road,
    dst: &Intersection,
    control_map: &ControlMap,
    cfg: RenderConfig,
)
    requires
        lane.wf(),
        cfg.wf(),
        cfg.lane_thickness >= MIN_WIDTH,
    ensures
        lookup(lane.lane_center_pts@, lane.spec_length() as int / 2) is Some,
        region_contains(
            spec_draw_lane(lane, road, dst, control_map, cfg).polygon,
            lookup(lane.lane_center_pts@, lane.spec_length() as int / 2).unwrap().0,
        ),
{
    law_footprint_contains_centre_line(
        lane,
        road,
        dst,
        control_map,
        cfg,
        lane.spec_length() as int / 2,
    );
}

/// No point outside a footprint's bounds lies on the footprint.
pub proof fn law_footprint_within_bounds(quads: Seq<Quad>, p: Pt2D)
    requires
        !bounds_of(quads, quads.len() as int).spec_contains(p),
    ensures
        !region_contains(quads, p),
{
}

/// A road's canonical lane has exactly one marking that shows the road's
/// orientation, and every other lane has none.
pub proof fn law_orientation_on_canonical_lane_only(
    lane: &Lane,
    road: &Road,
    dst: &Intersection,
    control_map: &ControlMap,
    cfg: RenderConfig,
)
    ensures
        count_color(spec_markings(lane, road, dst, control_map, cfg), Colors::RoadOrientation)
            == if road.spec_is_canonical_lane(lane.id) {
            1nat
        } else {
            0nat
        },
{
    lemma_count_markings(lane, road, dst, control_map, cfg, Colors::RoadOrientation);
    lemma_count_short(spec_orientation_part(lane, road, cfg), Colors::RoadOrientation);
    lemma_count_short(spec_type_part(lane, road, cfg), Colors::RoadOrientation);
    lemma_count_short(spec_stop_part(lane, dst, control_map, cfg), Colors::RoadOrientation);
}

/// A road has at most one canonical lane.
pub proof fn law_one_canonical_lane(road: &Road, a: LaneID, b: LaneID)
    requires
        road.spec_is_canonical_lane(a),
        road.spec_is_canonical_lane(b),
    ensures
        a == b,
{
}

/// Only driving lanes have a dashed marking, and of those the innermost of
/// its direction has none. Any other driving lane has exactly one, and that
/// one has a dash exactly when the lane's edge is longer than one dash and a
/// gap at each of its ends.
pub proof fn law_dashes_off_centre_only(
    lane: &Lane,
    road: &Road,
    dst: &Intersection,
    control_map: &ControlMap,
    cfg: RenderConfig,
)
    requires
        cfg.wf(),
        lane.lane_type == LaneType::Driving ==> road.has_lane(lane.id),
    ensures
        ({
            let offset = road.spec_dir_and_offset(lane.id).unwrap().1;
            let dashed = count_color(
                spec_markings(lane, road, dst, control_map, cfg),
                Colors::DrivingLaneMarking,
            );
            let edge = spec_lane_edge(lane.lane_center_pts@, cfg.lane_thickness as int);
            let dashes = spec_driving_lines(lane.lane_center_pts@, cfg);
            &&& lane.lane_type != LaneType::Driving ==> dashed == 0
            &&& lane.lane_type == LaneType::Driving && offset == 0 ==> dashed == 0
            &&& lane.lane_type == LaneType::Driving && offset != 0 ==> dashed == 1
                && spec_type_part(lane, road, cfg) == seq![
                spec_driving_marking(lane.lane_center_pts@, cfg),
            ]
            &&& dashes.len() >= 1 <==> path_length(edge) > 2 * cfg.dash_separation + cfg.dash_len
        }),
{
    lemma_count_markings(lane, road, dst, control_map, cfg, Colors::DrivingLaneMarking);
    lemma_count_short(spec_orientation_part(lane, road, cfg), Colors::DrivingLaneMarking);
    lemma_count_short(spec_type_part(lane, road, cfg), Colors::DrivingLaneMarking);
    lemma_count_short(spec_stop_part(lane, dst, control_map, cfg), Colors::DrivingLaneMarking);
    let edge = spec_lane_edge(lane.lane_center_pts@, cfg.lane_thickness as int);
    let len = path_length(edge) as int;
    let dash = cfg.dash_len as int;
    let sep = cfg.dash_separation as int;
    if len > 2 * sep + dash {
        assert((len - 2 * sep - dash - 1) / (dash + sep) >= 0) by (nonlinear_arith)
            requires
                len - 2 * sep - dash - 1 >= 0,
                dash + sep > 0,
        ;
    }
}

/// A parking lane without a spot still has its marking, with no line in it.
pub proof fn law_parking_without_spots(
    lane: &Lane,
    road: &Road,
    dst: &Intersection,
    control_map: &ControlMap,
    cfg: RenderConfig,
)
    requires
        lane.lane_type == LaneType::Parking,
        spec_parking_spots(lane.spec_length() as int, cfg.parking_spot_length as int) == 0,
    ensures
        spec_type_part(lane, road, cfg) == seq![spec_parking_marking(lane.lane_center_pts@, cfg)],
        spec_parking_marking(lane.lane_center_pts@, cfg) == (MarkingView {
            lines: Seq::empty(),
            color: Colors::ParkingMarking,
            thickness: cfg.marking_thickness,
            round: false,
        }),
        count_color(spec_markings(lane, road, dst, control_map, cfg), Colors::ParkingMarking) == 1,
{
    lemma_count_markings(lane, road, dst, control_map, cfg, Colors::ParkingMarking);
    lemma_count_short(spec_orientation_part(lane, road, cfg), Colors::ParkingMarking);
    lemma_count_short(spec_type_part(lane, road, cfg), Colors::ParkingMarking);
    lemma_count_short(spec_stop_part(lane, dst, control_map, cfg), Colors::ParkingMarking);
}

/// The ticks across a sidewalk stand one lane width apart by arc length:
/// tick `k` crosses the lane at `(k + 1)` lane widths, which is at least one
/// lane width from the start of the lane and more than one from its end.
pub proof fn law_sidewalk_ticks_spaced(pts: Seq<Pt2D>, cfg: RenderConfig, k: int)
    requires
        cfg.wf(),
        0 <= k < spec_sidewalk_lines(pts, cfg.lane_thickness as int).len(),
    ensures
        spec_sidewalk_lines(pts, cfg.lane_thickness as int)[k] == spec_crossing_at(
            pts,
            (k + 1) * cfg.lane_thickness,
            cfg.lane_thickness as int,
        ),
        (k + 1) * cfg.lane_thickness - k * cfg.lane_thickness == cfg.lane_thickness,
        cfg.lane_thickness <= (k + 1) * cfg.lane_thickness,
        (k + 1) * cfg.lane_thickness < path_length(pts) - cfg.lane_thickness,
{
    let t = cfg.lane_thickness as int;
    let len = path_length(pts) as int;
    let q = (len - 1) / t;
    assert((k + 1) * t - k * t == t) by (nonlinear_arith);
    assert((k + 1) * t >= t) by (nonlinear_arith)
        requires
            k >= 0,
            t >= 0,
    ;
    if len > 2 * t {
        assert(q >= 2) by (nonlinear_arith)
            requires
                q == (len - 1) / t,
                t > 0,
                len - 1 >= 2 * t,
        ;
    }
    assert(q * t <= len - 1) by (nonlinear_arith)
        requires
            q == (len - 1) / t,
            t > 0,
            len - 1 >= 0,
    ;
    assert((k + 2) * t <= q * t) by (nonlinear_arith)
        requires
            k + 2 <= q,
            t > 0,
    ;
    assert((k + 2) * t == (k + 1) * t + t) by (nonlinear_arith);
}

/// A sidewalk whose length is a whole number of lane widths, two or more,
/// has one tick for each lane width but two.
pub proof fn law_sidewalk_tick_count(pts: Seq<Pt2D>, cfg: RenderConfig)
    requires
        cfg.wf(),
        path_length(pts) >= 2 * cfg.lane_thickness,
        path_length(pts) % (cfg.lane_thickness as nat) == 0,
    ensures
        spec_sidewalk_lines(pts, cfg.lane_thickness as int).len() == (path_length(pts) - 2
            * cfg.lane_thickness) / (cfg.lane_thickness as int),
{
    let t = cfg.lane_thickness as int;
    let len = path_length(pts) as int;
    let n = len / t;
    assert(len == n * t && n >= 2) by (nonlinear_arith)
        requires
            n == len / t,
            len % t == 0,
            t > 0,
            len >= 2 * t,
    ;
    assert((n - 2) * t == len - 2 * t && (n - 1) * t == len - t && (n - 2 + 1) * t == len - t)
        by (nonlinear_arith)
        requires
            len == n * t,
    ;
    lemma_div_bracket(len - 2 * t, t, n - 2);
    if len > 2 * t {
        assert((n - 1 + 1) * t == len) by (nonlinear_arith)
            requires
                len == n * t,
        ;
        lemma_div_bracket(len - 1, t, n - 1);
    }
}

/// The lines across the two ends of a lane have the first and the last point
/// of the lane's centre line as their middles.
pub proof fn law_crossings_centred_on_ends(
    lane: &Lane,
    road: &Road,
    dst: &Intersection,
    control_map: &ControlMap,
    cfg: RenderConfig,
)
    requires
        lane.wf(),
        cfg.wf(),
    ensures
        ({
            let d = spec_draw_lane(lane, road, dst, control_map, cfg);
            let pts = lane.lane_center_pts@;
            &&& d.start_crossing.pt1.x + d.start_crossing.pt2.x == 2 * pts[0].x
            &&& d.start_crossing.pt1.y + d.start_crossing.pt2.y == 2 * pts[0].y
            &&& d.end_crossing.pt1.x + d.end_crossing.pt2.x == 2 * pts[pts.len() - 1].x
            &&& d.end_crossing.pt1.y + d.end_crossing.pt2.y == 2 * pts[pts.len() - 1].y
        }),
{
    let pts = lane.lane_center_pts@;
    let n = pts.len() as int;
    assert(pts[0].within(MAP_LIMIT as int) && pts[1].within(MAP_LIMIT as int));
    assert(pts[n - 2].within(MAP_LIMIT as int) && pts[n - 1].within(MAP_LIMIT as int));
    law_perp_line_centred(pts[0], segment(pts, 0).spec_angle(), cfg.lane_thickness as int);
    law_perp_line_centred(
        pts[n - 1],
        segment(pts, n - 2).spec_reverse().spec_angle(),
        cfg.lane_thickness as int,
    );
}

/// A line drawn across a lane (a sidewalk's tick, the stop line) has the
/// point of the centre line where it was drawn as its middle.
pub proof fn law_crossing_centred_on_centre_line(lane: &Lane, cfg: RenderConfig, dist: int)
    requires
        lane.wf(),
        cfg.wf(),
        0 <= dist <= lane.spec_length(),
    ensures
        ({
            let at = lookup(lane.lane_center_pts@, dist).unwrap().0;
            let l = spec_crossing_at(lane.lane_center_pts@, dist, cfg.lane_thickness as int);
            &&& lookup(lane.lane_center_pts@, dist) is Some
            &&& l.pt1.x + l.pt2.x == 2 * at.x
            &&& l.pt1.y + l.pt2.y == 2 * at.y
        }),
{
    lemma_lookup(lane.lane_center_pts@, dist, MAP_LIMIT as int);
    let found = lookup(lane.lane_center_pts@, dist).unwrap();
    law_perp_line_centred(found.0, found.1, cfg.lane_thickness as int);
}

/// A lane shorter than four lane widths has no label anchor, nor has a lane
/// that is not for driving; a driving lane of four lane widths or more has two.
pub proof fn law_label_anchors(lane: &Lane, cfg: RenderConfig)
    ensures
        lane.spec_length() < 4 * cfg.lane_thickness ==> spec_label_anchors(lane, cfg).len() == 0,
        lane.lane_type != LaneType::Driving ==> spec_label_anchors(lane, cfg).len() == 0,
        lane.lane_type == LaneType::Driving && lane.spec_length() >= 4 * cfg.lane_thickness
            ==> spec_label_anchors(lane, cfg).len() == 2,
{
}

/// A lane has a stop line, and only one, exactly when it is a driving lane
/// of at least two lane widths that leads to an intersection without a
/// traffic signal and has no priority at the stop signs there.
pub proof fn law_stop_line(
    lane: &Lane,
    road: &Road,
    dst: &Intersection,
    control_map: &ControlMap,
    cfg: RenderConfig,
)
    ensures
        ({
            let stop_lines = count_color(
                spec_markings(lane, road, dst, control_map, cfg),
                Colors::StopSignMarking,
            );
            &&& stop_lines == if spec_must_stop(lane, dst, control_map) && spec_fits_stop_line(
                lane.lane_center_pts@,
                cfg,
            ) {
                1nat
            } else {
                0nat
            }
            &&& dst.has_traffic_signal ==> stop_lines == 0
            &&& control_map.spec_is_priority_lane(lane.dst_i, lane.id) ==> stop_lines == 0
            &&& lane.lane_type != LaneType::Driving ==> stop_lines == 0
            &&& stop_lines == 1 ==> spec_stop_part(lane, dst, control_map, cfg) == seq![
                spec_stop_marking(lane.lane_center_pts@, cfg),
            ]
        }),
{
    lemma_count_markings(lane, road, dst, control_map, cfg, Colors::StopSignMarking);
    lemma_count_short(spec_orientation_part(lane, road, cfg), Colors::StopSignMarking);
    lemma_count_short(spec_type_part(lane, road, cfg), Colors::StopSignMarking);
    lemma_count_short(spec_stop_part(lane, dst, control_map, cfg), Colors::StopSignMarking);
}

} // verus!
