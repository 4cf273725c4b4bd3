use lane_render::config::RenderConfig;
use lane_render::control::{ControlMap, ControlStopSign};
use lane_render::geom::{Line, PolyLine, Pt2D, Quad};
use lane_render::map_model::{
    Intersection, IntersectionID, Lane, LaneID, LaneType, Road, RoadID, StreetMap,
};
use lane_render::render::draw::fill;
use lane_render::render::tooltip::{road_name, tag};
use lane_render::render::{Color, Colors, DrawCommand, DrawLane, Paint, RenderOptions};
use lane_render::text::{decimal, digit_str, metres, signed_decimal};

fn pt(x: i64, y: i64) -> Pt2D {
    Pt2D::new(x, y)
}

fn line(x1: i64, y1: i64, x2: i64, y2: i64) -> Line {
    Line::new(pt(x1, y1), pt(x2, y2))
}

fn path(points: &[(i64, i64)]) -> PolyLine {
    PolyLine::new(points.iter().map(|p| pt(p.0, p.1)).collect()).unwrap()
}

fn town(lane_type: LaneType, broken: bool, tags: &[(&str, &str)]) -> StreetMap {
    StreetMap {
        roads: vec![Road {
            id: RoadID(0),
            osm_tags: tags.iter().map(|t| (t.0.to_string(), t.1.to_string())).collect(),
            osm_way_id: -77,
            children_forwards: vec![LaneID(0)],
            children_backwards: vec![],
            center_pts: path(&[(0, 1250), (8000, 1250)]),
        }],
        lanes: vec![Lane {
            id: LaneID(0),
            parent: RoadID(0),
            lane_type,
            lane_center_pts: path(&[(0, 0), (8000, 0), (8000, 4000)]),
            src_i: IntersectionID(0),
            dst_i: IntersectionID(1),
            probably_broken: broken,
        }],
        intersections: vec![
            Intersection { id: IntersectionID(0), has_traffic_signal: false, elevation: 12_345 },
            Intersection { id: IntersectionID(1), has_traffic_signal: false, elevation: -50 },
        ],
    }
}

fn ready(map: &StreetMap) -> DrawLane {
    let mut control = ControlMap::new();
    control.add_stop_sign(IntersectionID(1), ControlStopSign::new());
    DrawLane::new(&map.lanes[0], map, &control, &RenderConfig::standard())
}

fn options(color: Option<Color>, cam_zoom: u32, debug_mode: bool) -> RenderOptions {
    RenderOptions { color, cam_zoom, debug_mode }
}

fn paint_of(c: &DrawCommand) -> Paint {
    match c {
        DrawCommand::Polygon { paint, .. } => *paint,
        DrawCommand::Line { paint, .. } => *paint,
        DrawCommand::RoundedLine { paint, .. } => *paint,
        DrawCommand::Circle { paint, .. } => *paint,
        DrawCommand::Text { .. } => panic!("text has no paint"),
    }
}

#[test]
fn fill_by_lane_type() {
    assert_eq!(fill(LaneType::Driving, false, None), Paint::Palette(Colors::Road));
    assert_eq!(fill(LaneType::Parking, false, None), Paint::Palette(Colors::Parking));
    assert_eq!(fill(LaneType::Sidewalk, false, None), Paint::Palette(Colors::Sidewalk));
    assert_eq!(fill(LaneType::Biking, false, None), Paint::Palette(Colors::Biking));
}

#[test]
fn fill_broken_lane_unless_overridden() {
    let red = Color { r: 255, g: 0, b: 0, a: 255 };
    assert_eq!(fill(LaneType::Driving, true, None), Paint::Palette(Colors::Broken));
    assert_eq!(fill(LaneType::Sidewalk, true, None), Paint::Palette(Colors::Broken));
    assert_eq!(fill(LaneType::Driving, true, Some(red)), Paint::Custom(red));
    assert_eq!(fill(LaneType::Driving, false, Some(red)), Paint::Custom(red));
}

#[test]
fn draw_below_the_zoom_for_markings() {
    let map = town(LaneType::Driving, false, &[]);
    let d = ready(&map);
    let cmds = d.draw(&options(None, 4999, false), &map, &RenderConfig::standard());
    assert_eq!(cmds.len(), 1);
    match &cmds[0] {
        DrawCommand::Polygon { paint, quads } => {
            assert_eq!(*paint, Paint::Palette(Colors::Road));
            assert_eq!(
                quads,
                &vec![
                    Quad::new(pt(0, 1250), pt(8000, 1250), pt(8000, -1250), pt(0, -1250)),
                    Quad::new(pt(6750, 0), pt(6750, 4000), pt(9250, 4000), pt(9250, 0)),
                ]
            );
        }
        other => panic!("not a polygon: {:?}", other),
    }
}

#[test]
fn draw_markings_from_the_zoom_threshold() {
    let map = town(LaneType::Driving, false, &[]);
    let d = ready(&map);
    let cfg = RenderConfig::standard();
    let cmds = d.draw(&options(None, 5000, false), &map, &cfg);
    // the footprint, the road's orientation, the stop line; no dashes on the innermost lane
    assert_eq!(cmds.len(), 3);
    match &cmds[1] {
        DrawCommand::RoundedLine { paint, thickness, line: l } => {
            assert_eq!(*paint, Paint::Palette(Colors::RoadOrientation));
            assert_eq!(*thickness, 500);
            assert_eq!(*l, line(0, 1250, 8000, 1250));
        }
        other => panic!("not a rounded line: {:?}", other),
    }
    match &cmds[2] {
        DrawCommand::RoundedLine { paint, thickness, line: l } => {
            assert_eq!(*paint, Paint::Palette(Colors::StopSignMarking));
            assert_eq!(*thickness, 450);
            assert_eq!(*l, line(7000, 1250, 7000, -1250));
        }
        other => panic!("not a rounded line: {:?}", other),
    }
    assert_eq!(d.draw(&options(None, u32::MAX, false), &map, &cfg).len(), 3);
    assert_eq!(d.draw(&options(None, 0, false), &map, &cfg).len(), 1);
}

#[test]
fn draw_square_lines_for_square_markings() {
    let map = town(LaneType::Sidewalk, false, &[]);
    let d = ready(&map);
    let cmds = d.draw(&options(None, 5000, false), &map, &RenderConfig::standard());
    // footprint, orientation, and the ticks at 2.5, 5 and 7.5 m of 12 m
    assert_eq!(cmds.len(), 5);
    for (k, c) in cmds[2..].iter().enumerate() {
        match c {
            DrawCommand::Line { paint, thickness, line: l } => {
                assert_eq!(*paint, Paint::Palette(Colors::SidewalkMarking));
                assert_eq!(*thickness, 250);
                let x = 2500 * (k as i64 + 1);
                assert_eq!(*l, line(x, 1250, x, -1250));
            }
            other => panic!("not a line: {:?}", other),
        }
    }
}

#[test]
fn draw_with_override_and_broken() {
    let cfg = RenderConfig::standard();
    let blue = Color { r: 0, g: 0, b: 255, a: 128 };
    let map = town(LaneType::Parking, true, &[]);
    let d = ready(&map);
    let plain = d.draw(&options(None, 0, false), &map, &cfg);
    assert_eq!(paint_of(&plain[0]), Paint::Palette(Colors::Broken));
    let chosen = d.draw(&options(Some(blue), 0, false), &map, &cfg);
    assert_eq!(paint_of(&chosen[0]), Paint::Custom(blue));
    // the markings keep their own colours
    let zoomed = d.draw(&options(Some(blue), 9000, false), &map, &cfg);
    assert_eq!(paint_of(&zoomed[0]), Paint::Custom(blue));
    assert_eq!(paint_of(&zoomed[1]), Paint::Palette(Colors::RoadOrientation));
}

#[test]
fn draw_debug_overlay_whatever_the_zoom() {
    let map = town(LaneType::Driving, false, &[]);
    let d = ready(&map);
    let cmds = d.draw(&options(None, 0, true), &map, &RenderConfig::standard());
    // footprint; per segment a line and two circles; the number at both anchors
    assert_eq!(cmds.len(), 1 + 3 * 2 + 2);
    match &cmds[1] {
        DrawCommand::Line { paint, thickness, line: l } => {
            assert_eq!(*paint, Paint::Palette(Colors::Debug));
            assert_eq!(*thickness, 250);
            assert_eq!(*l, line(0, 0, 8000, 0));
        }
        other => panic!("not a line: {:?}", other),
    }
    match &cmds[2] {
        DrawCommand::Circle { paint, center, radius } => {
            assert_eq!(*paint, Paint::Palette(Colors::BrightDebug));
            assert_eq!(*center, pt(0, 0));
            assert_eq!(*radius, 400);
        }
        other => panic!("not a circle: {:?}", other),
    }
    match &cmds[3] {
        DrawCommand::Circle { center, radius, .. } => {
            assert_eq!(*center, pt(8000, 0));
            assert_eq!(*radius, 800);
        }
        other => panic!("not a circle: {:?}", other),
    }
    match &cmds[6] {
        DrawCommand::Circle { center, radius, .. } => {
            assert_eq!(*center, pt(8000, 4000));
            assert_eq!(*radius, 800);
        }
        other => panic!("not a circle: {:?}", other),
    }
    match &cmds[7] {
        DrawCommand::Text { text, at } => {
            assert_eq!(text, "0");
            assert_eq!(*at, pt(7000, 0));
        }
        other => panic!("not a text: {:?}", other),
    }
    match &cmds[8] {
        DrawCommand::Text { text, at } => {
            assert_eq!(text, "0");
            assert_eq!(*at, pt(5000, 0));
        }
        other => panic!("not a text: {:?}", other),
    }
}

#[test]
fn draw_debug_after_markings() {
    let map = town(LaneType::Biking, false, &[]);
    let d = ready(&map);
    let cmds = d.draw(&options(None, 5000, true), &map, &RenderConfig::standard());
    // footprint, orientation, then the overlay of two segments; a bike lane has no label
    assert_eq!(cmds.len(), 1 + 1 + 6);
    assert_eq!(paint_of(&cmds[1]), Paint::Palette(Colors::RoadOrientation));
    assert_eq!(paint_of(&cmds[2]), Paint::Palette(Colors::Debug));
}

#[test]
fn tooltip_tells_of_lane_and_road() {
    let map = town(
        LaneType::Driving,
        false,
        &[("highway", "residential"), ("name", "Main Street"), ("name", "Other")],
    );
    let d = ready(&map);
    assert_eq!(
        d.tooltip_lines(&map),
        vec![
            "Lane #0 is Main Street".to_string(),
            "From OSM way -77, parent is Road #0".to_string(),
            "Lane goes from 12.345m to -0.050m".to_string(),
            "Lane is 12.000m long".to_string(),
            "highway = residential".to_string(),
            "name = Main Street".to_string(),
            "name = Other".to_string(),
        ]
    );
}

#[test]
fn tooltip_of_a_road_without_name() {
    let map = town(LaneType::Driving, false, &[]);
    let d = ready(&map);
    let lines = d.tooltip_lines(&map);
    assert_eq!(lines.len(), 4);
    assert_eq!(lines[0], "Lane #0 is ???");
}

#[test]
fn tag_finds_the_first_value() {
    let tags = vec![
        ("a".to_string(), "1".to_string()),
        ("b".to_string(), "2".to_string()),
        ("a".to_string(), "3".to_string()),
    ];
    assert_eq!(tag(&tags, "a"), Some(&"1".to_string()));
    assert_eq!(tag(&tags, "b"), Some(&"2".to_string()));
    assert_eq!(tag(&tags, "c"), None);
    assert_eq!(tag(&vec![], "a"), None);
    let map = town(LaneType::Driving, false, &[("name", "Elm")]);
    assert_eq!(road_name(&map.roads[0]), "Elm");
}

#[test]
fn numbers_as_text() {
    assert_eq!(digit_str(0), "0");
    assert_eq!(digit_str(9), "9");
    assert_eq!(decimal(0), "0");
    assert_eq!(decimal(7), "7");
    assert_eq!(decimal(10), "10");
    assert_eq!(decimal(1234567890), "1234567890");
    assert_eq!(decimal(u64::MAX), "18446744073709551615");
    assert_eq!(signed_decimal(0), "0");
    assert_eq!(signed_decimal(-1), "-1");
    assert_eq!(signed_decimal(i64::MIN), "-9223372036854775808");
    assert_eq!(signed_decimal(i64::MAX), "9223372036854775807");
}

#[test]
fn millimetres_as_metres() {
    assert_eq!(metres(0), "0.000");
    assert_eq!(metres(5), "0.005");
    assert_eq!(metres(50), "0.050");
    assert_eq!(metres(999), "0.999");
    assert_eq!(metres(1000), "1.000");
    assert_eq!(metres(40_000), "40.000");
    assert_eq!(metres(-1250), "-1.250");
    assert_eq!(metres(-7), "-0.007");
    assert_eq!(metres(i64::MIN), "-9223372036854775.808");
}
