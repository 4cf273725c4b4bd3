//! The markings painted on a lane: ticks across a sidewalk, marks between
//! parking spots, dashes between driving lanes, and the stop line.

use crate::config::RenderConfig;
use crate::control::ControlMap;
use crate::geom::line::{perp_line_at, spec_perp_line_at, Line};
use crate::geom::polyline::{
    lemma_lookup, lookup, path_length, spec_shift_blindly, PolyLine,
};
use crate::geom::pt::{
    lemma_project_away_within, Angle, Pt2D, MAP_LIMIT, MAX_DISTANCE, WORLD_LIMIT,
};
use crate::map_model::{number_parking_spots, spec_parking_spots, Lane, LaneType, Road};
use crate::num::lemma_div_bracket;
use vstd::prelude::*;

verus! {

/// What a thing is drawn as; the renderer's palette gives each a colour.
#[derive(Clone, Copy, Debug, PartialEq, Eq, Structural)]
pub enum Colors {
    Road,
    Parking,
    Sidewalk,
    Biking,
    Broken,
    RoadOrientation,
    SidewalkMarking,
    ParkingMarking,
    DrivingLaneMarking,
    StopSignMarking,
    Debug,
    BrightDebug,
}

/// A marking: some segments, all drawn in one style.
#[derive(Debug)]
pub struct Marking {
    pub lines: Vec<Line>,
    pub color: Colors,
    pub thickness: i64,
    /// Whether the ends of each segment are rounded.
    pub round: bool,
}

/// A marking as a plain value.
pub struct MarkingView {
    pub lines: Seq<Line>,
    pub color: Colors,
    pub thickness: i64,
    pub round: bool,
}

impl View for Marking {
    type V = MarkingView;

    open spec fn view(&self) -> MarkingView {
        MarkingView {
            lines: self.lines@,
            color: self.color,
            thickness: self.thickness,
            round: self.round,
        }
    }
}

/// The line of length `length` that crosses the path at right angles at arc
/// length `dist`, with its middle on the path.
pub open spec fn spec_crossing_at(pts: Seq<Pt2D>, dist: int, length: int) -> Line {
    spec_perp_line_at(lookup(pts, dist).unwrap().0, lookup(pts, dist).unwrap().1, length)
}

/// The number of ticks across a sidewalk of length `length`, one every
/// `spacing`: as many multiples of `spacing` as lie at least `spacing` from
/// the start and more than `spacing` from the end.
pub open spec fn spec_tick_count(length: int, spacing: int) -> int {
    if length > 2 * spacing {
        (length - 1) / spacing - 1
    } else {
        0
    }
}

/// The ticks across a sidewalk: tick `k` crosses the lane at arc length
/// `(k + 1) * thickness` and is as long as the lane is wide.
pub open spec fn spec_sidewalk_lines(pts: Seq<Pt2D>, thickness: int) -> Seq<Line> {
    Seq::new(
        spec_tick_count(path_length(pts) as int, thickness) as nat,
        |k: int| spec_crossing_at(pts, (k + 1) * thickness, thickness),
    )
}

/// The marking of a sidewalk.
pub open spec fn spec_sidewalk_marking(pts: Seq<Pt2D>, cfg: RenderConfig) -> MarkingView {
    MarkingView {
        lines: spec_sidewalk_lines(pts, cfg.lane_thickness as int),
        color: Colors::SidewalkMarking,
        thickness: cfg.marking_thickness,
        round: false,
    }
}

/// The number of ticks that the walk along a sidewalk has drawn when it
/// stops is the number that the sidewalk has.
proof fn lemma_tick_count(length: int, spacing: int, k: int)
    requires
        spacing > 0,
        k >= 0,
        (k + 1) * spacing >= length - spacing,
        k == 0 || k * spacing < length - spacing,
    ensures
        k == spec_tick_count(length, spacing),
{
    assert((k + 1) * spacing == k * spacing + spacing) by (nonlinear_arith);
    assert((k + 2) * spacing == k * spacing + 2 * spacing) by (nonlinear_arith);
    if k == 0 {
        assert(0 * spacing == 0);
    } else {
        assert(k * spacing >= spacing) by (nonlinear_arith)
            requires
                k >= 1,
                spacing > 0,
        ;
        lemma_div_bracket(length - 1, spacing, k + 1);
    }
}

/// Draws the ticks across a sidewalk: starting one lane width from the
/// start and going on by one lane width at a time for as long as more than
/// one lane width is left, a line across the lane.
pub fn calculate_sidewalk_lines(lane: &Lane, cfg: &RenderConfig) -> (m: Marking)
    requires
        lane.wf(),
        cfg.wf(),
    ensures
        m@ == spec_sidewalk_marking(lane.lane_center_pts@, *cfg),
{
    let tile_every: i64 = cfg.lane_thickness;
    let length: i64 = lane.length() as i64;
    let ghost pts = lane.lane_center_pts@;
    let mut lines: Vec<Line> = Vec::new();
    let mut dist_along: i64 = tile_every;
    assert((lines@.len() + 1) * tile_every == tile_every) by (nonlinear_arith)
        requires
            lines@.len() == 0,
    ;
    while dist_along < length - tile_every
        invariant
            lane.wf(),
            cfg.wf(),
            pts == lane.lane_center_pts@,
            tile_every == cfg.lane_thickness,
            length == path_length(pts),
            length <= 0x1_0000_0000 * 0x10_0000,
            dist_along == (lines@.len() + 1) * tile_every,
            dist_along <= length + tile_every,
            lines@.len() == 0 || lines@.len() * tile_every < length - tile_every,
            forall|j: int|
                0 <= j < lines@.len() ==> lines@[j] == spec_crossing_at(
                    pts,
                    (j + 1) * tile_every,
                    tile_every as int,
                ),
        decreases length - dist_along,
    {
        let found: (Pt2D, Angle) = lane.lane_center_pts.dist_along(dist_along);
        proof {
            lemma_lookup(pts, dist_along as int, MAP_LIMIT as int);
            let k = lines@.len() as int;
            assert((k + 2) * tile_every == (k + 1) * tile_every + tile_every)
                by (nonlinear_arith);
            assert((k + 1) * tile_every == k * tile_every + tile_every) by (nonlinear_arith);
        }
        lines.push(perp_line_at(found.0, found.1, tile_every));
        dist_along = dist_along + tile_every;
    }
    proof {
        lemma_tick_count(length as int, tile_every as int, lines@.len() as int);
        assert(lines@ =~= spec_sidewalk_lines(pts, tile_every as int));
    }
    Marking { lines, color: Colors::SidewalkMarking, thickness: cfg.marking_thickness, round: false }
}

/// One leg of the mark at arc length `dist` of a parking lane. The mark stands
/// `inset` to the side of the lane's middle, a quarter turn back from the
/// lane's direction; leg 0 points from there back across the lane, leg 1
/// along the lane, leg 2 against it, each `leg` long.
pub open spec fn spec_parking_leg(pts: Seq<Pt2D>, dist: int, inset: int, leg: int, which: int)
    -> Line {
    let pt = lookup(pts, dist).unwrap().0;
    let lane_angle = lookup(pts, dist).unwrap().1;
    let perp_angle = lane_angle.spec_rotate_quarters(3);
    let t_pt = pt.spec_project_away(inset, perp_angle);
    let toward = if which == 0 {
        perp_angle.spec_opposite()
    } else if which == 1 {
        lane_angle
    } else {
        lane_angle.spec_opposite()
    };
    Line { pt1: t_pt, pt2: t_pt.spec_project_away(leg, toward) }
}

/// The marks of a parking lane: none if the lane has no spot; else one mark
/// of three legs at each end of each spot, the mark `i` at arc length
/// `(1 + i)` spot lengths.
pub open spec fn spec_parking_lines(pts: Seq<Pt2D>, cfg: RenderConfig) -> Seq<Line> {
    let spots = spec_parking_spots(path_length(pts) as int, cfg.parking_spot_length as int);
    if spots > 0 {
        Seq::new(
            (3 * (spots + 1)) as nat,
            |j: int|
                spec_parking_leg(
                    pts,
                    cfg.parking_spot_length * (1 + j / 3),
                    cfg.spec_parking_inset(),
                    cfg.parking_leg_length as int,
                    j % 3,
                ),
        )
    } else {
        Seq::empty()
    }
}

/// The marking of a parking lane.
pub open spec fn spec_parking_marking(pts: Seq<Pt2D>, cfg: RenderConfig) -> MarkingView {
    MarkingView {
        lines: spec_parking_lines(pts, cfg),
        color: Colors::ParkingMarking,
        thickness: cfg.marking_thickness,
        round: false,
    }
}

/// Every mark of a parking lane lies on the lane: the last one at least one
/// spot length before its end.
proof fn lemma_parking_mark_fits(length: int, spot: int, idx: int)
    requires
        spot >= 1,
        length >= 0,
        0 <= idx <= spec_parking_spots(length, spot),
        spec_parking_spots(length, spot) > 0,
    ensures
        0 <= spot * (1 + idx) <= length - spot,
{
    let fit = length / spot;
    assert(fit * spot <= length) by (nonlinear_arith)
        requires
            fit == length / spot,
            spot >= 1,
            length >= 0,
    ;
    assert(0 <= spot * (1 + idx) <= fit * spot - spot) by (nonlinear_arith)
        requires
            0 <= idx <= fit - 2,
            spot >= 1,
    ;
}

/// Draws the marks of a parking lane: at the end of each spot a mark of
/// three short legs, set in from the lane's middle so that it keeps clear of
/// the next lane's markings. A lane without spots gets a marking without lines.
pub fn calculate_parking_lines(lane: &Lane, cfg: &RenderConfig) -> (m: Marking)
    requires
        lane.wf(),
        cfg.wf(),
    ensures
        m@ == spec_parking_marking(lane.lane_center_pts@, *cfg),
{
    let leg_length: i64 = cfg.parking_leg_length;
    let spot: i64 = cfg.parking_spot_length;
    let inset: i64 = cfg.parking_inset();
    let length: u64 = lane.length();
    let ghost pts = lane.lane_center_pts@;
    let mut lines: Vec<Line> = Vec::new();
    let num_spots: u64 = number_parking_spots(length, spot as u64);
    if num_spots > 0 {
        let mut idx: u64 = 0;
        while idx <= num_spots
            invariant
                lane.wf(),
                cfg.wf(),
                pts == lane.lane_center_pts@,
                leg_length == cfg.parking_leg_length,
                spot == cfg.parking_spot_length,
                inset == cfg.spec_parking_inset(),
                0 <= inset <= cfg.lane_thickness,
                length == path_length(pts),
                length <= 0x1_0000_0000 * 0x10_0000,
                num_spots == spec_parking_spots(length as int, spot as int),
                num_spots > 0,
                idx <= num_spots + 1,
                lines@.len() == 3 * idx,
                forall|j: int|
                    0 <= j < lines@.len() ==> lines@[j] == spec_parking_leg(
                        pts,
                        spot * (1 + j / 3),
                        inset as int,
                        leg_length as int,
                        j % 3,
                    ),
            decreases num_spots + 1 - idx,
        {
            proof {
                lemma_parking_mark_fits(length as int, spot as int, idx as int);
            }
            let dist: i64 = spot * (1 + idx as i64);
            let found: (Pt2D, Angle) = lane.lane_center_pts.dist_along(dist);
            let pt: Pt2D = found.0;
            let lane_angle: Angle = found.1;
            proof {
                lemma_lookup(pts, dist as int, MAP_LIMIT as int);
            }
            let perp_angle: Angle = lane_angle.rotate_quarters(3);
            // Stand a little inside the lane's edge: the line has thickness, and
            // should not run into the next lane's line when drawn.
            let t_pt: Pt2D = pt.project_away(inset, perp_angle);
            proof {
                lemma_project_away_within(
                    pt,
                    inset as int,
                    perp_angle,
                    MAP_LIMIT as int,
                    MAX_DISTANCE as int,
                );
            }
            let p1: Pt2D = t_pt.project_away(leg_length, perp_angle.opposite());
            lines.push(Line::new(t_pt, p1));
            let p2: Pt2D = t_pt.project_away(leg_length, lane_angle);
            lines.push(Line::new(t_pt, p2));
            let p3: Pt2D = t_pt.project_away(leg_length, lane_angle.opposite());
            lines.push(Line::new(t_pt, p3));
            idx = idx + 1;
        }
    }
    proof {
        assert(lines@ =~= spec_parking_lines(pts, *cfg));
    }
    Marking { lines, color: Colors::ParkingMarking, thickness: cfg.marking_thickness, round: false }
}

/// The edge of a lane toward the middle of its road: the centre line walked
/// backward and shifted sideways, without care for its corners, by half the
/// lane's width.
pub open spec fn spec_lane_edge(pts: Seq<Pt2D>, thickness: int) -> Seq<Pt2D> {
    spec_shift_blindly(pts.reverse(), thickness / 2)
}

/// The number of dashes along an edge of length `edge_len`: as many as start
/// a multiple of `dash + sep` after the first and end more than `sep` before
/// the end of the edge.
pub open spec fn spec_dash_count(edge_len: int, dash: int, sep: int) -> int {
    if edge_len > 2 * sep + dash {
        (edge_len - 2 * sep - dash - 1) / (dash + sep) + 1
    } else {
        0
    }
}

/// Where dash `k` starts, by arc length along the edge.
pub open spec fn spec_dash_start(k: int, dash: int, sep: int) -> int {
    sep + k * (dash + sep)
}

/// Dash `k` along an edge: the segment between the points of the edge at
/// the arc lengths where the dash starts and `dash` further on.
pub open spec fn spec_dash(edge: Seq<Pt2D>, k: int, dash: int, sep: int) -> Line {
    Line {
        pt1: lookup(edge, spec_dash_start(k, dash, sep)).unwrap().0,
        pt2: lookup(edge, spec_dash_start(k, dash, sep) + dash).unwrap().0,
    }
}

/// The dashes along the edge of a driving lane.
pub open spec fn spec_driving_lines(pts: Seq<Pt2D>, cfg: RenderConfig) -> Seq<Line> {
    let edge = spec_lane_edge(pts, cfg.lane_thickness as int);
    Seq::new(
        spec_dash_count(
            path_length(edge) as int,
            cfg.dash_len as int,
            cfg.dash_separation as int,
        ) as nat,
        |k: int| spec_dash(edge, k, cfg.dash_len as int, cfg.dash_separation as int),
    )
}

/// The marking of a driving lane that is not the innermost of its road.
pub open spec fn spec_driving_marking(pts: Seq<Pt2D>, cfg: RenderConfig) -> MarkingView {
    MarkingView {
        lines: spec_driving_lines(pts, cfg),
        color: Colors::DrivingLaneMarking,
        thickness: cfg.marking_thickness,
        round: false,
    }
}

/// The number of dashes that the walk along an edge has drawn when it stops
/// is the number that the edge has.
proof fn lemma_dash_count(edge_len: int, dash: int, sep: int, k: int)
    requires
        dash >= 1,
        sep >= 0,
        k >= 0,
        spec_dash_start(k, dash, sep) + dash >= edge_len - sep,
        k == 0 || spec_dash_start(k - 1, dash, sep) + dash < edge_len - sep,
    ensures
        k == spec_dash_count(edge_len, dash, sep),
{
    let c = dash + sep;
    let room = edge_len - 2 * sep - dash;
    assert((k - 1) * c == k * c - c) by (nonlinear_arith);
    if k == 0 {
        assert(0 * c == 0);
    } else {
        assert((k - 1) * c >= 0) by (nonlinear_arith)
            requires
                k >= 1,
                c >= 1,
        ;
        assert((k - 1 + 1) * c == k * c);
        lemma_div_bracket(room - 1, c, k - 1);
    }
}

/// Draws the dashes that part a driving lane from the next lane toward the
/// middle of the road. The innermost lane of its direction gets none: no
/// marking at all. Along the edge of any other lane, dashes of one length
/// are drawn at one spacing, the first and the last a gap's length clear of
/// the ends; an edge too short for one dash gets a marking without lines.
pub fn calculate_driving_lines(lane: &Lane, parent: &Road, cfg: &RenderConfig) -> (r: Option<
    Marking,
>)
    requires
        lane.wf(),
        cfg.wf(),
        parent.has_lane(lane.id),
    ensures
        r is None <==> parent.spec_dir_and_offset(lane.id).unwrap().1 == 0,
        r matches Some(m) ==> m@ == spec_driving_marking(lane.lane_center_pts@, *cfg),
{
    // The innermost lanes have no dashed line.
    match parent.dir_and_offset(lane.id) {
        Some((_, offset)) => {
            if offset == 0 {
                return None;
            }
        },
        None => {
            return None;
        },
    }
    // The edge lies to the left of the lane walked backward.
    let center_pts: PolyLine = lane.lane_center_pts.reversed();
    proof {
        let pts = lane.lane_center_pts@;
        assert forall|j: int| 0 <= j < center_pts@.len() implies (#[trigger] center_pts@[j]).within(
            WORLD_LIMIT - MAX_DISTANCE,
        ) by {
            assert(pts[pts.len() - 1 - j].within(MAP_LIMIT as int));
        }
    }
    let lane_edge_pts: PolyLine = center_pts.shift_blindly(cfg.lane_thickness / 2);
    let ghost edge = lane_edge_pts@;
    assert(edge == spec_lane_edge(lane.lane_center_pts@, cfg.lane_thickness as int));
    let lane_len: i64 = lane_edge_pts.length() as i64;
    let dash_separation: i64 = cfg.dash_separation;
    let dash_len: i64 = cfg.dash_len;

    let mut lines: Vec<Line> = Vec::new();
    let mut start: i64 = dash_separation;
    assert(lines@.len() * (dash_len + dash_separation) == 0) by (nonlinear_arith)
        requires
            lines@.len() == 0,
    ;
    while start + dash_len < lane_len - dash_separation
        invariant
            cfg.wf(),
            lane_edge_pts.wf(),
            edge == lane_edge_pts@,
            dash_len == cfg.dash_len,
            dash_separation == cfg.dash_separation,
            lane_len == path_length(edge),
            lane_len <= 0x1_0000_0000 * 0x10_0000,
            start == spec_dash_start(lines@.len() as int, dash_len as int, dash_separation as int),
            start <= lane_len + dash_len + dash_separation,
            lines@.len() == 0 || spec_dash_start(
                lines@.len() - 1,
                dash_len as int,
                dash_separation as int,
            ) + dash_len < lane_len - dash_separation,
            forall|k: int|
                0 <= k < lines@.len() ==> lines@[k] == spec_dash(
                    edge,
                    k,
                    dash_len as int,
                    dash_separation as int,
                ),
        decreases lane_len - start,
    {
        proof {
            let k = lines@.len() as int;
            let c = dash_len + dash_separation;
            assert((k + 1) * c == k * c + c) by (nonlinear_arith);
            assert(k * c >= 0) by (nonlinear_arith)
                requires
                    k >= 0,
                    c >= 0,
            ;
        }
        let from: (Pt2D, Angle) = lane_edge_pts.dist_along(start);
        let to: (Pt2D, Angle) = lane_edge_pts.dist_along(start + dash_len);
        lines.push(Line::new(from.0, to.0));
        start = start + dash_len + dash_separation;
    }
    proof {
        lemma_dash_count(
            lane_len as int,
            dash_len as int,
            dash_separation as int,
            lines@.len() as int,
        );
        assert(lines@ =~= spec_driving_lines(lane.lane_center_pts@, *cfg));
    }
    Some(
        Marking {
            lines,
            color: Colors::DrivingLaneMarking,
            thickness: cfg.marking_thickness,
            round: false,
        },
    )
}

/// A lane is long enough for a stop line if it is at least two lane widths long.
pub open spec fn spec_fits_stop_line(pts: Seq<Pt2D>, cfg: RenderConfig) -> bool {
    path_length(pts) >= 2 * cfg.lane_thickness
}

/// The stop line of a lane: the line across the lane two lane widths before
/// its end.
pub open spec fn spec_stop_marking(pts: Seq<Pt2D>, cfg: RenderConfig) -> MarkingView {
    MarkingView {
        lines: seq![
            spec_crossing_at(
                pts,
                path_length(pts) - 2 * cfg.lane_thickness,
                cfg.lane_thickness as int,
            ),
        ],
        color: Colors::StopSignMarking,
        thickness: cfg.stop_line_thickness,
        round: true,
    }
}

/// Draws the stop line of a lane that ends at stop signs: none if the lane
/// has priority there, and none, without more ado, if the lane is shorter
/// than two lane widths.
pub fn calculate_stop_sign_line(lane: &Lane, control_map: &ControlMap, cfg: &RenderConfig) -> (r:
    Option<Marking>)
    requires
        lane.wf(),
        cfg.wf(),
        control_map.has_stop_sign(lane.dst_i),
    ensures
        r is Some <==> !control_map.spec_is_priority_lane(lane.dst_i, lane.id)
            && spec_fits_stop_line(lane.lane_center_pts@, *cfg),
        r matches Some(m) ==> m@ == spec_stop_marking(lane.lane_center_pts@, *cfg),
{
    if control_map.is_priority_lane(lane.dst_i, lane.id) {
        return None;
    }
    let length: i64 = lane.length() as i64;
    let dist: i64 = length - 2 * cfg.lane_thickness;
    proof {
        lemma_lookup(lane.lane_center_pts@, dist as int, MAP_LIMIT as int);
    }
    match lane.lane_center_pts.safe_dist_along(dist) {
        Some((pt1, angle)) => {
            let line: Line = perp_line_at(pt1, angle, cfg.lane_thickness);
            let mut lines: Vec<Line> = Vec::new();
            lines.push(line);
            proof {
                assert(lines@ =~= spec_stop_marking(lane.lane_center_pts@, *cfg).lines);
            }
            Some(
                Marking {
                    lines,
                    color: Colors::StopSignMarking,
                    thickness: cfg.stop_line_thickness,
                    round: true,
                },
            )
        },
        None => None,
    }
}

/// A lane gets a label if it is a driving lane at least four lane widths long.
pub open spec fn spec_has_label(lane_type: LaneType, pts: Seq<Pt2D>, cfg: RenderConfig) -> bool {
    lane_type == LaneType::Driving && path_length(pts) >= 4 * cfg.lane_thickness
}

/// The anchors of a lane's label: the points of the centre line two lane
/// widths before its end and two lane widths after its start, in that order.
pub open spec fn spec_id_positions(pts: Seq<Pt2D>, cfg: RenderConfig) -> Seq<Pt2D> {
    seq![
        lookup(pts, path_length(pts) - 2 * cfg.lane_thickness).unwrap().0,
        lookup(pts, 2 * cfg.lane_thickness).unwrap().0,
    ]
}

/// Finds where to write a lane's label: two anchors on a driving lane of at
/// least four lane widths, nothing on any other lane.
pub fn calculate_id_positions(lane: &Lane, cfg: &RenderConfig) -> (r: Option<Vec<Pt2D>>)
    requires
        lane.wf(),
        cfg.wf(),
    ensures
        r is Some <==> spec_has_label(lane.lane_type, lane.lane_center_pts@, *cfg),
        r matches Some(v) ==> v@ == spec_id_positions(lane.lane_center_pts@, *cfg),
{
    if !lane.is_driving() {
        return None;
    }
    let length: i64 = lane.length() as i64;
    if length < 4 * cfg.lane_thickness {
        return None;
    }
    match lane.lane_center_pts.safe_dist_along(length - 2 * cfg.lane_thickness) {
        Some((pt1, _)) => match lane.lane_center_pts.safe_dist_along(2 * cfg.lane_thickness) {
            Some((pt2, _)) => {
                let mut v: Vec<Pt2D> = Vec::new();
                v.push(pt1);
                v.push(pt2);
                proof {
                    assert(v@ =~= spec_id_positions(lane.lane_center_pts@, *cfg));
                }
                Some(v)
            },
            None => None,
        },
        None => None,
    }
}

} // verus!
