use lane_render::config::RenderConfig;
use lane_render::control::{ControlMap, ControlStopSign};
use lane_render::geom::{Bounds, Line, PolyLine, Pt2D, Quad};
use lane_render::map_model::{
    Intersection, IntersectionID, Lane, LaneID, LaneType, Road, RoadID, StreetMap,
};
use lane_render::render::{Colors, DrawLane};

fn pt(x: i64, y: i64) -> Pt2D {
    Pt2D::new(x, y)
}

fn line(x1: i64, y1: i64, x2: i64, y2: i64) -> Line {
    Line::new(pt(x1, y1), pt(x2, y2))
}

fn path(points: &[(i64, i64)]) -> PolyLine {
    PolyLine::new(points.iter().map(|p| pt(p.0, p.1)).collect()).unwrap()
}

fn lane(id: usize, lane_type: LaneType, points: &[(i64, i64)]) -> Lane {
    Lane {
        id: LaneID(id),
        parent: RoadID(0),
        lane_type,
        lane_center_pts: path(points),
        src_i: IntersectionID(0),
        dst_i: IntersectionID(1),
        probably_broken: false,
    }
}

/// One road of 40 m from intersection 0 to intersection 1: driving lanes 0
/// and 1 and sidewalk 2 run with it, parking lane 3 and bike lane 4 against it.
fn street(signal_at_end: bool) -> StreetMap {
    StreetMap {
        roads: vec![Road {
            id: RoadID(0),
            osm_tags: vec![
                ("highway".to_string(), "residential".to_string()),
                ("name".to_string(), "Main Street".to_string()),
            ],
            osm_way_id: 1234,
            children_forwards: vec![LaneID(0), LaneID(1), LaneID(2)],
            children_backwards: vec![LaneID(3), LaneID(4)],
            center_pts: path(&[(0, 2500), (40_000, 2500)]),
        }],
        lanes: vec![
            lane(0, LaneType::Driving, &[(0, 1250), (40_000, 1250)]),
            lane(1, LaneType::Driving, &[(0, 0), (40_000, 0)]),
            lane(2, LaneType::Sidewalk, &[(0, -2500), (40_000, -2500)]),
            lane(3, LaneType::Parking, &[(0, 3750), (40_000, 3750)]),
            lane(4, LaneType::Biking, &[(0, 6250), (40_000, 6250)]),
        ],
        intersections: vec![
            Intersection { id: IntersectionID(0), has_traffic_signal: false, elevation: 1000 },
            Intersection {
                id: IntersectionID(1),
                has_traffic_signal: signal_at_end,
                elevation: -1250,
            },
        ],
    }
}

fn stop_signs(priority: &[usize]) -> ControlMap {
    let mut sign = ControlStopSign::new();
    for l in priority {
        sign.set_priority(LaneID(*l));
    }
    let mut control = ControlMap::new();
    control.add_stop_sign(IntersectionID(1), sign);
    control
}

fn count(d: &DrawLane, color: Colors) -> usize {
    d.markings().iter().filter(|m| m.color == color).count()
}

#[test]
fn end_to_end_straight_driving_lane() {
    let map = street(false);
    let control = stop_signs(&[]);
    let cfg = RenderConfig::standard();
    let d = DrawLane::new(&map.lanes[1], &map, &control, &cfg);

    assert_eq!(d.get_id(), LaneID(1));
    // one footprint, as wide as a lane and as long as the lane
    assert_eq!(
        d.polygon.quads(),
        &vec![Quad::new(pt(0, 1250), pt(40_000, 1250), pt(40_000, -1250), pt(0, -1250))]
    );
    let b = d.get_bounds();
    assert_eq!(b, Bounds { min_x: 0, min_y: -1250, max_x: 40_000, max_y: 1250 });
    assert_eq!(b.max_y - b.min_y, cfg.lane_thickness);
    assert_eq!(b.max_x - b.min_x, 40_000);

    assert_eq!(d.markings().len(), 2);
    assert_eq!(count(&d, Colors::RoadOrientation), 0);
    assert_eq!(count(&d, Colors::DrivingLaneMarking), 1);
    assert_eq!(count(&d, Colors::StopSignMarking), 1);
    let dashes = &d.markings()[0];
    assert_eq!(dashes.color, Colors::DrivingLaneMarking);
    assert_eq!(dashes.lines.len(), 12);
    assert_eq!(dashes.lines[0], line(38_000, -1250, 37_000, -1250));
    assert_eq!(dashes.lines[11], line(5000, -1250, 4000, -1250));
    let stop = &d.markings()[1];
    assert_eq!(stop.color, Colors::StopSignMarking);
    assert_eq!(stop.lines, vec![line(35_000, 1250, 35_000, -1250)]);
    assert_eq!(stop.thickness, 450);
    assert!(stop.round);

    assert_eq!(d.label_anchors(), &vec![pt(35_000, 0), pt(5000, 0)]);
    assert_eq!(*d.get_start_crossing(), line(0, 1250, 0, -1250));
    assert_eq!(*d.get_end_crossing(), line(40_000, -1250, 40_000, 1250));
}

#[test]
fn footprint_contains_midpoint_not_far_point() {
    let map = street(false);
    let control = stop_signs(&[]);
    let cfg = RenderConfig::standard();
    for l in &map.lanes {
        let d = DrawLane::new(l, &map, &control, &cfg);
        let (mid, _) = l.lane_center_pts.dist_along((l.length() / 2) as i64);
        assert!(d.contains_pt(mid));
        let b = d.get_bounds();
        assert!(!d.contains_pt(pt(b.max_x + 1, mid.y())));
        assert!(!d.contains_pt(pt(mid.x(), b.min_y - 1)));
        assert!(!d.contains_pt(pt(1_000_000_000, 1_000_000_000)));
        assert!(!d.contains_pt(pt(i64::MIN, i64::MAX)));
    }
}

#[test]
fn footprint_contains_every_point_of_a_crooked_centre_line() {
    let map = street(false);
    let control = stop_signs(&[]);
    let cfg = RenderConfig::standard();
    let l = lane(
        1,
        LaneType::Driving,
        &[(0, 0), (1, 1), (1, 1), (777, 12_345), (-5000, 12_346), (-5003, -9000), (20_011, 7)],
    );
    let d = DrawLane::new(&l, &map, &control, &cfg);
    let length = l.length() as i64;
    let mut dist = 0;
    while dist <= length {
        let (p, _) = l.lane_center_pts.dist_along(dist);
        assert!(d.contains_pt(p), "at {}", dist);
        dist += 37;
    }
    let (mid, _) = l.lane_center_pts.dist_along(length / 2);
    assert!(d.contains_pt(mid));
    let (end, _) = l.lane_center_pts.dist_along(length);
    assert!(d.contains_pt(end));
}

#[test]
fn footprint_of_the_narrowest_lane_contains_its_midpoint() {
    let map = street(false);
    let control = stop_signs(&[]);
    let mut cfg = RenderConfig::standard();
    cfg.lane_thickness = 4;
    assert!(cfg.check());
    let l = lane(1, LaneType::Biking, &[(0, 0), (1, 0), (2, 1), (3, 3), (10, 4), (-20, -26)]);
    let d = DrawLane::new(&l, &map, &control, &cfg);
    let length = l.length() as i64;
    for dist in 0..=length {
        let (p, _) = l.lane_center_pts.dist_along(dist);
        assert!(d.contains_pt(p), "at {}", dist);
    }
}

#[test]
fn orientation_only_on_the_canonical_lane() {
    let map = street(false);
    let control = stop_signs(&[]);
    let cfg = RenderConfig::standard();
    for l in &map.lanes {
        let d = DrawLane::new(l, &map, &control, &cfg);
        let expected = if l.id == LaneID(0) { 1 } else { 0 };
        assert_eq!(count(&d, Colors::RoadOrientation), expected);
    }
    let d = DrawLane::new(&map.lanes[0], &map, &control, &cfg);
    let m = &d.markings()[0];
    assert_eq!(m.color, Colors::RoadOrientation);
    assert_eq!(m.lines, vec![line(0, 2500, 40_000, 2500)]);
    assert_eq!(m.thickness, 500);
    assert!(m.round);
}

#[test]
fn dashes_only_off_the_centre() {
    let map = street(false);
    let control = stop_signs(&[]);
    let cfg = RenderConfig::standard();
    let inner = DrawLane::new(&map.lanes[0], &map, &control, &cfg);
    assert_eq!(count(&inner, Colors::DrivingLaneMarking), 0);
    let outer = DrawLane::new(&map.lanes[1], &map, &control, &cfg);
    assert_eq!(count(&outer, Colors::DrivingLaneMarking), 1);
    // too short for one dash cycle: the marking is there, without a dash
    let stub = lane(1, LaneType::Driving, &[(0, 0), (5000, 0)]);
    let d = DrawLane::new(&stub, &map, &control, &cfg);
    assert_eq!(count(&d, Colors::DrivingLaneMarking), 1);
    assert!(d.markings().iter().all(|m| m.color != Colors::DrivingLaneMarking || m.lines.is_empty()));
}

#[test]
fn markings_by_lane_type() {
    let map = street(false);
    let control = stop_signs(&[]);
    let cfg = RenderConfig::standard();
    let sidewalk = DrawLane::new(&map.lanes[2], &map, &control, &cfg);
    assert_eq!(sidewalk.markings().len(), 1);
    assert_eq!(sidewalk.markings()[0].color, Colors::SidewalkMarking);
    assert_eq!(sidewalk.markings()[0].lines.len(), 14);
    assert!(sidewalk.label_anchors().is_empty());
    let parking = DrawLane::new(&map.lanes[3], &map, &control, &cfg);
    assert_eq!(parking.markings().len(), 1);
    assert_eq!(parking.markings()[0].color, Colors::ParkingMarking);
    assert_eq!(parking.markings()[0].lines.len(), 12);
    let biking = DrawLane::new(&map.lanes[4], &map, &control, &cfg);
    assert!(biking.markings().is_empty());
    assert!(biking.label_anchors().is_empty());
}

#[test]
fn parking_lane_without_spots_keeps_its_marking() {
    let map = street(false);
    let control = stop_signs(&[]);
    let cfg = RenderConfig::standard();
    let short = lane(3, LaneType::Parking, &[(0, 0), (20_000, 0)]);
    let d = DrawLane::new(&short, &map, &control, &cfg);
    assert_eq!(d.markings().len(), 1);
    assert_eq!(d.markings()[0].color, Colors::ParkingMarking);
    assert!(d.markings()[0].lines.is_empty());
    assert_eq!(count(&d, Colors::ParkingMarking), 1);
}

#[test]
fn stop_line_by_control() {
    let cfg = RenderConfig::standard();
    // a traffic signal: no stop line, and no stop signs need be on record
    let signalled = street(true);
    let d = DrawLane::new(&signalled.lanes[1], &signalled, &ControlMap::new(), &cfg);
    assert_eq!(count(&d, Colors::StopSignMarking), 0);
    // stop signs, no priority: a stop line
    let map = street(false);
    let d = DrawLane::new(&map.lanes[1], &map, &stop_signs(&[0]), &cfg);
    assert_eq!(count(&d, Colors::StopSignMarking), 1);
    // the same lane with priority: none
    let d = DrawLane::new(&map.lanes[1], &map, &stop_signs(&[0, 1]), &cfg);
    assert_eq!(count(&d, Colors::StopSignMarking), 0);
    // other kinds of lane never stop
    for i in 2..5 {
        let d = DrawLane::new(&map.lanes[i], &map, &stop_signs(&[]), &cfg);
        assert_eq!(count(&d, Colors::StopSignMarking), 0);
    }
}

#[test]
fn short_driving_lane_has_no_label_and_no_stop_line() {
    let map = street(false);
    let control = stop_signs(&[]);
    let cfg = RenderConfig::standard();
    let l = lane(1, LaneType::Driving, &[(0, 0), (4999, 0)]);
    let d = DrawLane::new(&l, &map, &control, &cfg);
    assert!(d.label_anchors().is_empty());
    assert_eq!(count(&d, Colors::StopSignMarking), 0);
    let l = lane(1, LaneType::Driving, &[(0, 0), (9999, 0)]);
    let d = DrawLane::new(&l, &map, &control, &cfg);
    assert!(d.label_anchors().is_empty());
    assert_eq!(count(&d, Colors::StopSignMarking), 1);
    let l = lane(1, LaneType::Driving, &[(0, 0), (10_000, 0)]);
    let d = DrawLane::new(&l, &map, &control, &cfg);
    assert_eq!(d.label_anchors().len(), 2);
}

#[test]
fn rebuilding_gives_the_same_artifact() {
    let map = street(false);
    let control = stop_signs(&[]);
    let cfg = RenderConfig::standard();
    for l in &map.lanes {
        let a = DrawLane::new(l, &map, &control, &cfg);
        let b = DrawLane::new(l, &map, &control, &cfg);
        assert_eq!(format!("{:?}", a), format!("{:?}", b));
    }
}

#[test]
fn crossings_of_a_bent_lane() {
    let map = street(false);
    let control = stop_signs(&[]);
    let cfg = RenderConfig::standard();
    let l = lane(4, LaneType::Biking, &[(0, 0), (10_000, 0), (10_000, 10_000)]);
    let d = DrawLane::new(&l, &map, &control, &cfg);
    assert_eq!(*d.get_start_crossing(), line(0, 1250, 0, -1250));
    assert_eq!(*d.get_end_crossing(), line(11_250, 10_000, 8750, 10_000));
}

#[test]
fn try_new_refuses_what_cannot_be_drawn() {
    let map = street(false);
    let cfg = RenderConfig::standard();
    let good = &map.lanes[1];
    assert!(DrawLane::try_new(good, &map, &stop_signs(&[]), &cfg).is_some());
    // no stop signs on record for the intersection that the lane leads to
    assert!(DrawLane::try_new(good, &map, &ControlMap::new(), &cfg).is_none());
    // which matters for driving lanes only
    assert!(DrawLane::try_new(&map.lanes[2], &map, &ControlMap::new(), &cfg).is_some());
    // a centre line without length
    let flat = lane(1, LaneType::Driving, &[(7, 7), (7, 7)]);
    assert!(DrawLane::try_new(&flat, &map, &stop_signs(&[]), &cfg).is_none());
    // a centre line outside the map
    let far = lane(1, LaneType::Driving, &[(0, 0), (0x2000_0001, 0)]);
    assert!(DrawLane::try_new(&far, &map, &stop_signs(&[]), &cfg).is_none());
    // a road that is not in the map
    let mut lost = lane(1, LaneType::Driving, &[(0, 0), (40_000, 0)]);
    lost.parent = RoadID(9);
    assert!(DrawLane::try_new(&lost, &map, &stop_signs(&[]), &cfg).is_none());
    // a driving lane that its road does not know
    let stranger = lane(17, LaneType::Driving, &[(0, 0), (40_000, 0)]);
    assert!(DrawLane::try_new(&stranger, &map, &stop_signs(&[]), &cfg).is_none());
    // measures that cannot be used
    let mut bad = cfg;
    bad.dash_len = 0;
    assert!(DrawLane::try_new(good, &map, &stop_signs(&[]), &bad).is_none());
}

#[test]
fn map_check() {
    let map = street(false);
    assert!(map.check());
    assert!(map.check_lane(&map.lanes[0]));
    assert_eq!(map.get_l(LaneID(3)).lane_type, LaneType::Parking);
    assert_eq!(map.get_r(RoadID(0)).osm_way_id, 1234);
    assert_eq!(map.get_i(IntersectionID(1)).elevation, -1250);
    let mut misnumbered = street(false);
    misnumbered.lanes[2].id = LaneID(5);
    assert!(!misnumbered.check());
    let mut dangling = street(false);
    dangling.lanes[2].dst_i = IntersectionID(2);
    assert!(!dangling.check());
    assert!(!dangling.check_lane(&dangling.lanes[2]));
}

#[test]
fn lane_checks_and_kinds() {
    let l = lane(1, LaneType::Driving, &[(0, 0), (3000, 4000)]);
    assert!(l.check());
    assert_eq!(l.length(), 5000);
    assert!(l.is_driving() && !l.is_parking() && !l.is_sidewalk() && !l.is_biking());
    assert!(!lane(1, LaneType::Driving, &[(1, 1), (1, 1)]).check());
    assert!(!lane(1, LaneType::Driving, &[(0, 0), (0, -0x2000_0001)]).check());
    assert!(lane(1, LaneType::Driving, &[(0, 0), (0, -0x2000_0000)]).check());
    assert!(lane(2, LaneType::Sidewalk, &[(0, 0), (1, 0)]).is_sidewalk());
    assert!(lane(2, LaneType::Parking, &[(0, 0), (1, 0)]).is_parking());
    assert!(lane(2, LaneType::Biking, &[(0, 0), (1, 0)]).is_biking());
}

#[test]
fn all_lanes_of_a_map_at_once() {
    let map = street(false);
    let cfg = RenderConfig::standard();
    let all = lane_render::render::lane::draw_all_lanes(&map, &stop_signs(&[]), &cfg).unwrap();
    assert_eq!(all.len(), map.lanes.len());
    for (i, d) in all.iter().enumerate() {
        assert_eq!(d.get_id(), LaneID(i));
        let alone = DrawLane::new(&map.lanes[i], &map, &stop_signs(&[]), &cfg);
        assert_eq!(format!("{:?}", d), format!("{:?}", alone));
    }
    // one lane that cannot be drawn, and nothing is
    assert!(lane_render::render::lane::draw_all_lanes(&map, &ControlMap::new(), &cfg).is_none());
    let empty = StreetMap { roads: vec![], lanes: vec![], intersections: vec![] };
    assert!(lane_render::render::lane::draw_all_lanes(&empty, &ControlMap::new(), &cfg)
        .unwrap()
        .is_empty());
}

#[test]
fn crossings_are_centred_on_the_ends() {
    let map = street(false);
    let control = stop_signs(&[]);
    let cfg = RenderConfig::standard();
    let l = lane(4, LaneType::Biking, &[(13, -7), (5000, 3001), (-2222, 9000)]);
    let d = DrawLane::new(&l, &map, &control, &cfg);
    let s = d.get_start_crossing();
    assert_eq!((s.pt1().x() + s.pt2().x(), s.pt1().y() + s.pt2().y()), (26, -14));
    let e = d.get_end_crossing();
    assert_eq!((e.pt1().x() + e.pt2().x(), e.pt1().y() + e.pt2().y()), (-4444, 18_000));
}

#[test]
fn footprint_of_a_hairline_lane_may_be_empty() {
    let map = street(false);
    let control = stop_signs(&[]);
    let mut cfg = RenderConfig::standard();
    // three millimetres wide: half the width, turned aslant, rounds to nothing
    cfg.lane_thickness = 3;
    assert!(cfg.check());
    let l = lane(1, LaneType::Biking, &[(0, 0), (-30, -30)]);
    let d = DrawLane::new(&l, &map, &control, &cfg);
    assert_eq!(d.polygon.quads(), &vec![Quad::new(pt(0, 0), pt(-30, -30), pt(-30, -30), pt(0, 0))]);
    let (mid, _) = l.lane_center_pts.dist_along((l.length() / 2) as i64);
    assert!(!d.contains_pt(mid));
}

#[test]
fn lane_new_refuses_a_degenerate_centre_line() {
    let make = |points: &[(i64, i64)]| {
        Lane::new(
            LaneID(1),
            RoadID(0),
            LaneType::Driving,
            points.iter().map(|p| pt(p.0, p.1)).collect(),
            IntersectionID(0),
            IntersectionID(1),
            false,
        )
    };
    assert!(make(&[]).is_none());
    assert!(make(&[(0, 0)]).is_none());
    assert!(make(&[(5, 5), (5, 5)]).is_none());
    assert!(make(&[(5, 5), (5, 5), (5, 5)]).is_none());
    assert!(make(&[(0, 0), (0x2000_0001, 0)]).is_none());
    let l = make(&[(0, 0), (0, 0), (3000, 4000)]).unwrap();
    assert!(l.check());
    assert_eq!(l.length(), 5000);
    assert_eq!(l.id, LaneID(1));
    assert_eq!(l.lane_type, LaneType::Driving);
    assert_eq!(l.lane_center_pts.points().len(), 3);
}
