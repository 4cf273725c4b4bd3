use lane_render::config::RenderConfig;
use lane_render::control::{ControlMap, ControlStopSign};
use lane_render::geom::{Line, PolyLine, Pt2D};
use lane_render::map_model::{
    number_parking_spots, IntersectionID, Lane, LaneID, LaneType, Road, RoadID,
};
use lane_render::render::marking::{
    calculate_driving_lines, calculate_id_positions, calculate_parking_lines,
    calculate_sidewalk_lines, calculate_stop_sign_line,
};
use lane_render::render::Colors;

fn pt(x: i64, y: i64) -> Pt2D {
    Pt2D::new(x, y)
}

fn line(x1: i64, y1: i64, x2: i64, y2: i64) -> Line {
    Line::new(pt(x1, y1), pt(x2, y2))
}

fn path(points: &[(i64, i64)]) -> PolyLine {
    PolyLine::new(points.iter().map(|p| pt(p.0, p.1)).collect()).unwrap()
}

/// A straight lane of the given length along the x axis, lane 1 of road 0.
fn straight_lane(lane_type: LaneType, length: i64) -> Lane {
    Lane {
        id: LaneID(1),
        parent: RoadID(0),
        lane_type,
        lane_center_pts: path(&[(0, 0), (length, 0)]),
        src_i: IntersectionID(0),
        dst_i: IntersectionID(1),
        probably_broken: false,
    }
}

/// A road whose lanes 0 and 1 run with it and lane 2 against it.
fn road() -> Road {
    Road {
        id: RoadID(0),
        osm_tags: vec![],
        osm_way_id: 42,
        children_forwards: vec![LaneID(0), LaneID(1)],
        children_backwards: vec![LaneID(2)],
        center_pts: path(&[(0, 5000), (40_000, 5000)]),
    }
}

#[test]
fn sidewalk_ticks_one_lane_width_apart() {
    let cfg = RenderConfig::standard();
    let m = calculate_sidewalk_lines(&straight_lane(LaneType::Sidewalk, 10_000), &cfg);
    assert_eq!(m.color, Colors::SidewalkMarking);
    assert_eq!(m.thickness, 250);
    assert!(!m.round);
    assert_eq!(
        m.lines,
        vec![line(2500, 1250, 2500, -1250), line(5000, 1250, 5000, -1250)]
    );
}

#[test]
fn sidewalk_tick_count_for_whole_lane_widths() {
    let cfg = RenderConfig::standard();
    // floor((L - 2 * thickness) / thickness) for lengths that are multiples of the thickness
    for n in 2..40 {
        let lane = straight_lane(LaneType::Sidewalk, 2500 * n);
        let m = calculate_sidewalk_lines(&lane, &cfg);
        assert_eq!(m.lines.len() as i64, (2500 * n - 2 * 2500) / 2500);
    }
}

#[test]
fn sidewalk_tick_count_between_whole_lane_widths() {
    let cfg = RenderConfig::standard();
    // 11 m: ticks at 2.5, 5 and 7.5 m, each more than one lane width before the end
    let m = calculate_sidewalk_lines(&straight_lane(LaneType::Sidewalk, 11_000), &cfg);
    assert_eq!(
        m.lines,
        vec![
            line(2500, 1250, 2500, -1250),
            line(5000, 1250, 5000, -1250),
            line(7500, 1250, 7500, -1250),
        ]
    );
    assert_eq!(calculate_sidewalk_lines(&straight_lane(LaneType::Sidewalk, 7501), &cfg).lines.len(), 2);
    assert_eq!(calculate_sidewalk_lines(&straight_lane(LaneType::Sidewalk, 7500), &cfg).lines.len(), 1);
}

#[test]
fn sidewalk_too_short_for_a_tick() {
    let cfg = RenderConfig::standard();
    for length in [1, 2499, 2500, 4999, 5000] {
        let m = calculate_sidewalk_lines(&straight_lane(LaneType::Sidewalk, length), &cfg);
        assert!(m.lines.is_empty());
        assert_eq!(m.color, Colors::SidewalkMarking);
    }
    assert_eq!(calculate_sidewalk_lines(&straight_lane(LaneType::Sidewalk, 5001), &cfg).lines.len(), 1);
}

#[test]
fn sidewalk_ticks_keep_clear_of_the_ends() {
    let cfg = RenderConfig::standard();
    for length in [5001, 9999, 10_000, 12_345, 40_000] {
        let m = calculate_sidewalk_lines(&straight_lane(LaneType::Sidewalk, length), &cfg);
        for (k, l) in m.lines.iter().enumerate() {
            let at = l.pt1().x();
            assert_eq!(at, 2500 * (k as i64 + 1));
            assert!(at >= 2500);
            assert!(at < length - 2500);
            assert_eq!(l.pt1().y(), 1250);
            assert_eq!(l.pt2(), pt(at, -1250));
        }
    }
}

#[test]
fn sidewalk_ticks_follow_a_bend() {
    let cfg = RenderConfig::standard();
    let mut lane = straight_lane(LaneType::Sidewalk, 1);
    // 10 m in all: ticks at 2.5 m, before the bend, and at 5 m, after it
    lane.lane_center_pts = path(&[(0, 0), (4000, 0), (4000, 6000)]);
    let m = calculate_sidewalk_lines(&lane, &cfg);
    assert_eq!(
        m.lines,
        vec![
            line(2500, 1250, 2500, -1250),
            line(2750, 1000, 5250, 1000),
        ]
    );
}

#[test]
fn parking_spots_leave_out_the_two_at_the_ends() {
    assert_eq!(number_parking_spots(40_000, 8000), 3);
    assert_eq!(number_parking_spots(24_000, 8000), 1);
    assert_eq!(number_parking_spots(23_999, 8000), 0);
    assert_eq!(number_parking_spots(16_000, 8000), 0);
    assert_eq!(number_parking_spots(0, 8000), 0);
    assert_eq!(number_parking_spots(40_000, 0), 0);
}

#[test]
fn parking_marks_are_three_legs_each() {
    let cfg = RenderConfig::standard();
    let m = calculate_parking_lines(&straight_lane(LaneType::Parking, 24_000), &cfg);
    assert_eq!(m.color, Colors::ParkingMarking);
    assert_eq!(m.thickness, 250);
    assert!(!m.round);
    assert_eq!(
        m.lines,
        vec![
            line(8000, -1000, 8000, 0),
            line(8000, -1000, 9000, -1000),
            line(8000, -1000, 7000, -1000),
            line(16_000, -1000, 16_000, 0),
            line(16_000, -1000, 17_000, -1000),
            line(16_000, -1000, 15_000, -1000),
        ]
    );
}

#[test]
fn parking_marks_one_more_than_spots() {
    let cfg = RenderConfig::standard();
    let m = calculate_parking_lines(&straight_lane(LaneType::Parking, 40_000), &cfg);
    assert_eq!(m.lines.len(), 3 * (3 + 1));
    assert_eq!(m.lines[9], line(32_000, -1000, 32_000, 0));
}

#[test]
fn parking_without_spots_has_empty_marking() {
    let cfg = RenderConfig::standard();
    for length in [1, 8000, 16_000, 23_999] {
        let m = calculate_parking_lines(&straight_lane(LaneType::Parking, length), &cfg);
        assert!(m.lines.is_empty());
        assert_eq!(m.color, Colors::ParkingMarking);
        assert_eq!(m.thickness, 250);
        assert!(!m.round);
    }
}

#[test]
fn driving_innermost_lane_has_no_dashes() {
    let cfg = RenderConfig::standard();
    let mut lane = straight_lane(LaneType::Driving, 40_000);
    lane.id = LaneID(0);
    assert!(calculate_driving_lines(&lane, &road(), &cfg).is_none());
    // the innermost lane of the other direction
    lane.id = LaneID(2);
    assert!(calculate_driving_lines(&lane, &road(), &cfg).is_none());
}

#[test]
fn driving_dashes_along_the_inner_edge() {
    let cfg = RenderConfig::standard();
    let lane = straight_lane(LaneType::Driving, 40_000);
    let m = calculate_driving_lines(&lane, &road(), &cfg).unwrap();
    assert_eq!(m.color, Colors::DrivingLaneMarking);
    assert_eq!(m.thickness, 250);
    assert!(!m.round);
    assert_eq!(m.lines.len(), 12);
    for (k, l) in m.lines.iter().enumerate() {
        let start = 40_000 - 2000 - 3000 * k as i64;
        assert_eq!(*l, line(start, -1250, start - 1000, -1250));
    }
}

#[test]
fn driving_dash_count_by_length() {
    let cfg = RenderConfig::standard();
    let count = |length: i64| {
        calculate_driving_lines(&straight_lane(LaneType::Driving, length), &road(), &cfg)
            .unwrap()
            .lines
            .len()
    };
    // a dash needs more than its own length and a gap at each end
    assert_eq!(count(1), 0);
    assert_eq!(count(5000), 0);
    assert_eq!(count(5001), 1);
    assert_eq!(count(8000), 1);
    assert_eq!(count(8001), 2);
    assert_eq!(count(11_001), 3);
}

#[test]
fn stop_line_two_lane_widths_before_the_end() {
    let cfg = RenderConfig::standard();
    let mut control = ControlMap::new();
    control.add_stop_sign(IntersectionID(1), ControlStopSign::new());
    let m = calculate_stop_sign_line(&straight_lane(LaneType::Driving, 40_000), &control, &cfg)
        .unwrap();
    assert_eq!(m.color, Colors::StopSignMarking);
    assert_eq!(m.thickness, 450);
    assert!(m.round);
    assert_eq!(m.lines, vec![line(35_000, 1250, 35_000, -1250)]);
}

#[test]
fn stop_line_left_out_on_a_short_lane() {
    let cfg = RenderConfig::standard();
    let mut control = ControlMap::new();
    control.add_stop_sign(IntersectionID(1), ControlStopSign::new());
    assert!(calculate_stop_sign_line(&straight_lane(LaneType::Driving, 4999), &control, &cfg).is_none());
    assert!(calculate_stop_sign_line(&straight_lane(LaneType::Driving, 1), &control, &cfg).is_none());
    let at_start =
        calculate_stop_sign_line(&straight_lane(LaneType::Driving, 5000), &control, &cfg).unwrap();
    assert_eq!(at_start.lines, vec![line(0, 1250, 0, -1250)]);
}

#[test]
fn stop_line_left_out_with_priority() {
    let cfg = RenderConfig::standard();
    let mut sign = ControlStopSign::new();
    sign.set_priority(LaneID(7));
    sign.set_priority(LaneID(1));
    assert!(sign.is_priority_lane(LaneID(1)));
    assert!(!sign.is_priority_lane(LaneID(2)));
    let mut control = ControlMap::new();
    control.add_stop_sign(IntersectionID(1), sign);
    assert!(control.is_priority_lane(IntersectionID(1), LaneID(1)));
    assert!(calculate_stop_sign_line(&straight_lane(LaneType::Driving, 40_000), &control, &cfg).is_none());
}

#[test]
fn control_map_holds_what_was_added() {
    let mut control = ControlMap::new();
    assert!(control.stop_sign(IntersectionID(3)).is_none());
    control.add_stop_sign(IntersectionID(3), ControlStopSign::new());
    assert!(control.stop_sign(IntersectionID(3)).is_some());
    assert!(control.stop_sign(IntersectionID(4)).is_none());
    assert!(!control.is_priority_lane(IntersectionID(3), LaneID(0)));
    let mut sign = ControlStopSign::new();
    sign.set_priority(LaneID(0));
    control.add_stop_sign(IntersectionID(3), sign);
    assert!(control.is_priority_lane(IntersectionID(3), LaneID(0)));
}

#[test]
fn label_anchors_two_lane_widths_from_each_end() {
    let cfg = RenderConfig::standard();
    assert_eq!(
        calculate_id_positions(&straight_lane(LaneType::Driving, 40_000), &cfg),
        Some(vec![pt(35_000, 0), pt(5000, 0)])
    );
    assert_eq!(
        calculate_id_positions(&straight_lane(LaneType::Driving, 10_000), &cfg),
        Some(vec![pt(5000, 0), pt(5000, 0)])
    );
}

#[test]
fn label_left_out_below_four_lane_widths() {
    let cfg = RenderConfig::standard();
    for length in [1, 4999, 5000, 7500, 9999] {
        assert_eq!(calculate_id_positions(&straight_lane(LaneType::Driving, length), &cfg), None);
    }
}

#[test]
fn label_only_on_driving_lanes() {
    let cfg = RenderConfig::standard();
    for t in [LaneType::Parking, LaneType::Sidewalk, LaneType::Biking] {
        assert_eq!(calculate_id_positions(&straight_lane(t, 40_000), &cfg), None);
    }
}

#[test]
fn road_dir_and_offset() {
    let r = road();
    assert_eq!(r.dir_and_offset(LaneID(0)), Some((true, 0)));
    assert_eq!(r.dir_and_offset(LaneID(1)), Some((true, 1)));
    assert_eq!(r.dir_and_offset(LaneID(2)), Some((false, 0)));
    assert_eq!(r.dir_and_offset(LaneID(3)), None);
    assert!(r.is_canonical_lane(LaneID(0)));
    assert!(!r.is_canonical_lane(LaneID(1)));
    assert!(!r.is_canonical_lane(LaneID(2)));
}

#[test]
fn config_standard_is_sound() {
    let cfg = RenderConfig::standard();
    assert!(cfg.check());
    assert_eq!(cfg.lane_thickness, 2500);
    assert_eq!(cfg.parking_inset(), 1000);
    let mut thin = cfg;
    thin.lane_thickness = 0;
    assert!(!thin.check());
    thin.lane_thickness = 1;
    assert!(thin.check());
    let mut no_dash = cfg;
    no_dash.dash_len = 0;
    assert!(!no_dash.check());
    let mut wide = cfg;
    wide.lane_thickness = 0x10_0001;
    assert!(!wide.check());
}
