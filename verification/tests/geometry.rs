use lane_render::geom::line::{perp_line, perp_line_at};
use lane_render::geom::polygon::side;
use lane_render::geom::thicken::thick_quad;
use lane_render::geom::{Angle, Bounds, Line, PolyLine, Polygon, Pt2D, Quad};
use lane_render::num::{isqrt, scale};

fn pt(x: i64, y: i64) -> Pt2D {
    Pt2D::new(x, y)
}

fn path(points: &[(i64, i64)]) -> PolyLine {
    PolyLine::new(points.iter().map(|p| pt(p.0, p.1)).collect()).unwrap()
}

#[test]
fn isqrt_rounds_down() {
    assert_eq!(isqrt(0), 0);
    assert_eq!(isqrt(1), 1);
    assert_eq!(isqrt(2), 1);
    assert_eq!(isqrt(3), 1);
    assert_eq!(isqrt(4), 2);
    assert_eq!(isqrt(15), 3);
    assert_eq!(isqrt(16), 4);
    assert_eq!(isqrt(17), 4);
    assert_eq!(isqrt(25_000_000), 5000);
    assert_eq!(isqrt(u64::MAX), 4_294_967_295);
}

#[test]
fn scale_rounds_toward_zero() {
    assert_eq!(scale(5, 3, 2), 7);
    assert_eq!(scale(-5, 3, 2), -7);
    assert_eq!(scale(5, -3, 2), -7);
    assert_eq!(scale(-5, -3, 2), 7);
    assert_eq!(scale(1250, 3000, 5000), 750);
    assert_eq!(scale(5, 3, 0), 0);
    assert_eq!(scale(0, 3, 7), 0);
}

#[test]
fn angle_quarter_turns() {
    let a = Angle::new(3, 4);
    assert_eq!(a.rotate_quarters(0), Angle::new(3, 4));
    assert_eq!(a.rotate_quarters(1), Angle::new(-4, 3));
    assert_eq!(a.rotate_quarters(2), Angle::new(-3, -4));
    assert_eq!(a.rotate_quarters(3), Angle::new(4, -3));
    assert_eq!(a.rotate_quarters(4), a);
    assert_eq!(a.rotate_quarters(7), Angle::new(4, -3));
    assert_eq!(a.opposite(), Angle::new(-3, -4));
    assert_eq!(a.opposite().opposite(), a);
    assert_eq!(a.magnitude(), 5);
    assert_eq!(Angle::new(1, 1).magnitude(), 1);
    assert_eq!(Angle::new(0, 0).magnitude(), 0);
}

#[test]
fn project_away_along_a_direction() {
    let p = pt(100, 200);
    assert_eq!(p.project_away(1000, Angle::new(1, 0)), pt(1100, 200));
    assert_eq!(p.project_away(1000, Angle::new(0, -7)), pt(100, -800));
    assert_eq!(p.project_away(5000, Angle::new(3, 4)), pt(3100, 4200));
    assert_eq!(p.project_away(-5000, Angle::new(3, 4)), pt(-2900, -3800));
    // rounding is toward zero in each coordinate
    assert_eq!(pt(0, 0).project_away(7, Angle::new(3, 4)), pt(4, 5));
    assert_eq!(pt(0, 0).project_away(7, Angle::new(-3, -4)), pt(-4, -5));
}

#[test]
fn project_away_without_direction_stays() {
    assert_eq!(pt(5, 6).project_away(1000, Angle::new(0, 0)), pt(5, 6));
}

#[test]
fn line_length_angle_reverse() {
    let l = Line::new(pt(1000, 1000), pt(4000, 5000));
    assert_eq!(l.length(), 5000);
    assert_eq!(l.angle(), Angle::new(3000, 4000));
    assert_eq!(l.reverse(), Line::new(pt(4000, 5000), pt(1000, 1000)));
    assert_eq!(l.reverse().length(), 5000);
    assert_eq!(Line::new(pt(0, 0), pt(1, 1)).length(), 1);
    assert_eq!(Line::new(pt(7, 7), pt(7, 7)).length(), 0);
}

#[test]
fn line_shift_moves_sideways() {
    let l = Line::new(pt(0, 0), pt(10_000, 0));
    assert_eq!(l.shift(1250), Line::new(pt(0, 1250), pt(10_000, 1250)));
    assert_eq!(l.shift(-1250), Line::new(pt(0, -1250), pt(10_000, -1250)));
    assert_eq!(l.reverse().shift(1250), Line::new(pt(10_000, -1250), pt(0, -1250)));
    let d = Line::new(pt(0, 0), pt(3000, 4000));
    assert_eq!(d.shift(500), Line::new(pt(-400, 300), pt(2600, 4300)));
}

#[test]
fn line_dist_along_interpolates() {
    let l = Line::new(pt(1000, 1000), pt(4000, 5000));
    assert_eq!(l.dist_along(0), pt(1000, 1000));
    assert_eq!(l.dist_along(2500), pt(2500, 3000));
    assert_eq!(l.dist_along(5000), pt(4000, 5000));
    assert_eq!(l.dist_along(1), pt(1000, 1000));
    assert_eq!(l.dist_along(2), pt(1001, 1001));
}

#[test]
fn perp_line_is_centred_on_first_point() {
    let l = Line::new(pt(5000, 0), pt(6000, 0));
    let p = perp_line(l, 2500);
    assert_eq!(p, Line::new(pt(5000, 1250), pt(5000, -1250)));
    assert_eq!(p.length(), 2500);
    let q = perp_line_at(pt(1500, 2000), Angle::new(3000, 4000), 2500);
    assert_eq!(q, Line::new(pt(500, 2750), pt(2500, 1250)));
    assert_eq!(q.pt1().x() + q.pt2().x(), 2 * 1500);
    assert_eq!(q.pt1().y() + q.pt2().y(), 2 * 2000);
}

#[test]
fn perp_line_of_odd_length_uses_half_rounded_down() {
    let p = perp_line_at(pt(0, 0), Angle::new(1, 0), 7);
    assert_eq!(p, Line::new(pt(0, 3), pt(0, -3)));
}

#[test]
fn polyline_new_rejects_bad_input() {
    assert!(PolyLine::new(vec![]).is_none());
    assert!(PolyLine::new(vec![pt(0, 0)]).is_none());
    assert!(PolyLine::new(vec![pt(0, 0), pt(1, 0)]).is_some());
    assert!(PolyLine::new(vec![pt(0, 0), pt(0x4000_0000, 0)]).is_some());
    assert!(PolyLine::new(vec![pt(0, 0), pt(0x4000_0001, 0)]).is_none());
    assert!(PolyLine::new(vec![pt(0, -0x4000_0001), pt(0, 0)]).is_none());
    // a polyline may have no length at all; a lane may not
    assert!(PolyLine::new(vec![pt(3, 3), pt(3, 3)]).is_some());
}

#[test]
fn polyline_length_sums_segments() {
    let p = path(&[(0, 0), (3000, 4000), (3000, 10_000)]);
    assert_eq!(p.length(), 11_000);
    assert_eq!(p.points().len(), 3);
    assert_eq!(path(&[(0, 0), (0, 0)]).length(), 0);
    assert_eq!(path(&[(0, 0), (1, 1), (2, 2)]).length(), 2);
}

#[test]
fn polyline_lines_first_last() {
    let p = path(&[(0, 0), (3000, 4000), (3000, 10_000)]);
    assert_eq!(
        p.lines(),
        vec![
            Line::new(pt(0, 0), pt(3000, 4000)),
            Line::new(pt(3000, 4000), pt(3000, 10_000)),
        ]
    );
    assert_eq!(p.first_line(), Line::new(pt(0, 0), pt(3000, 4000)));
    assert_eq!(p.last_line(), Line::new(pt(3000, 4000), pt(3000, 10_000)));
}

#[test]
fn polyline_reversed() {
    let p = path(&[(0, 0), (3000, 4000), (3000, 10_000)]);
    let r = p.reversed();
    assert_eq!(r.points(), &vec![pt(3000, 10_000), pt(3000, 4000), pt(0, 0)]);
    assert_eq!(r.length(), p.length());
    assert_eq!(r.reversed().points(), p.points());
}

#[test]
fn safe_dist_along_finds_point_and_direction() {
    let p = path(&[(0, 0), (3000, 4000), (3000, 10_000)]);
    assert_eq!(p.safe_dist_along(0), Some((pt(0, 0), Angle::new(3000, 4000))));
    assert_eq!(p.safe_dist_along(2500), Some((pt(1500, 2000), Angle::new(3000, 4000))));
    // the end of a segment belongs to that segment
    assert_eq!(p.safe_dist_along(5000), Some((pt(3000, 4000), Angle::new(3000, 4000))));
    assert_eq!(p.safe_dist_along(5001), Some((pt(3000, 4001), Angle::new(0, 6000))));
    assert_eq!(p.safe_dist_along(11_000), Some((pt(3000, 10_000), Angle::new(0, 6000))));
    assert_eq!(p.dist_along(8000), (pt(3000, 7000), Angle::new(0, 6000)));
}

#[test]
fn safe_dist_along_gives_nothing_off_the_path() {
    let p = path(&[(0, 0), (3000, 4000), (3000, 10_000)]);
    assert_eq!(p.safe_dist_along(-1), None);
    assert_eq!(p.safe_dist_along(11_001), None);
    assert_eq!(p.safe_dist_along(i64::MAX), None);
    assert_eq!(p.safe_dist_along(i64::MIN), None);
    // a path without length has no point at any distance
    assert_eq!(path(&[(5, 5), (5, 5)]).safe_dist_along(0), None);
}

#[test]
fn safe_dist_along_passes_over_empty_segments() {
    let p = path(&[(0, 0), (0, 0), (1000, 0), (1000, 0), (1000, 500)]);
    assert_eq!(p.length(), 1500);
    assert_eq!(p.safe_dist_along(0), Some((pt(0, 0), Angle::new(1000, 0))));
    assert_eq!(p.safe_dist_along(1000), Some((pt(1000, 0), Angle::new(1000, 0))));
    assert_eq!(p.safe_dist_along(1001), Some((pt(1000, 1), Angle::new(0, 500))));
}

#[test]
fn shift_blindly_moves_each_point_with_its_segment() {
    let straight = path(&[(0, 0), (10_000, 0)]);
    assert_eq!(straight.shift_blindly(1250).points(), &vec![pt(0, 1250), pt(10_000, 1250)]);
    let bent = path(&[(0, 0), (10_000, 0), (10_000, 10_000)]);
    // the corner moves as the start of the second segment, the end as its end
    assert_eq!(
        bent.shift_blindly(1000).points(),
        &vec![pt(0, 1000), pt(9000, 0), pt(9000, 10_000)]
    );
    assert_eq!(bent.shift_blindly(0).points(), bent.points());
}

#[test]
fn thick_quad_lies_about_the_segment() {
    let q = thick_quad(Line::new(pt(0, 0), pt(40_000, 0)), 2500);
    assert_eq!(q, Quad::new(pt(0, 1250), pt(40_000, 1250), pt(40_000, -1250), pt(0, -1250)));
    assert_eq!(
        q.get_bounds(),
        Bounds { min_x: 0, min_y: -1250, max_x: 40_000, max_y: 1250 }
    );
}

#[test]
fn make_polygons_blindly_one_quad_per_segment() {
    let bent = path(&[(0, 0), (10_000, 0), (10_000, 10_000)]);
    let poly = bent.make_polygons_blindly(2000);
    assert_eq!(
        poly.quads(),
        &vec![
            Quad::new(pt(0, 1000), pt(10_000, 1000), pt(10_000, -1000), pt(0, -1000)),
            Quad::new(pt(9000, 0), pt(9000, 10_000), pt(11_000, 10_000), pt(11_000, 0)),
        ]
    );
    assert_eq!(
        poly.get_bounds(),
        Bounds { min_x: 0, min_y: -1000, max_x: 11_000, max_y: 10_000 }
    );
}

#[test]
fn side_gives_the_cross_product() {
    assert_eq!(side(pt(0, 0), pt(10, 0), pt(5, 3)), 30);
    assert_eq!(side(pt(0, 0), pt(10, 0), pt(5, -3)), -30);
    assert_eq!(side(pt(0, 0), pt(10, 0), pt(20, 0)), 0);
    assert_eq!(side(pt(1, 1), pt(4, 5), pt(2, 7)), 3 * 6 - 4 * 1);
}

#[test]
fn quad_contains_inside_and_edge_only() {
    let q = Quad::new(pt(0, 1250), pt(40_000, 1250), pt(40_000, -1250), pt(0, -1250));
    assert!(q.contains_pt(pt(20_000, 0)));
    assert!(q.contains_pt(pt(20_000, 1250)));
    assert!(q.contains_pt(pt(0, -1250)));
    assert!(!q.contains_pt(pt(20_000, 1251)));
    assert!(!q.contains_pt(pt(-1, 0)));
    assert!(!q.contains_pt(pt(40_001, 0)));
    // corners listed the other way round
    let r = Quad::new(pt(0, -1250), pt(40_000, -1250), pt(40_000, 1250), pt(0, 1250));
    assert!(r.contains_pt(pt(20_000, 0)));
    assert!(!r.contains_pt(pt(20_000, -1251)));
}

#[test]
fn collapsed_quad_contains_nothing() {
    let dot = Quad::new(pt(5, 5), pt(5, 5), pt(5, 5), pt(5, 5));
    assert!(!dot.contains_pt(pt(5, 5)));
    assert!(!dot.contains_pt(pt(6, 5)));
    let flat = Quad::new(pt(0, 0), pt(10, 0), pt(10, 0), pt(0, 0));
    assert!(!flat.contains_pt(pt(5, 0)));
    assert!(!flat.contains_pt(pt(50, 0)));
}

#[test]
fn polygon_new_and_bounds() {
    assert!(Polygon::new(vec![]).is_none());
    let far = Quad::new(pt(0, 0), pt(0x4000_0001, 0), pt(1, 1), pt(0, 1));
    assert!(Polygon::new(vec![far]).is_none());
    let a = Quad::new(pt(0, 0), pt(10, 0), pt(10, 10), pt(0, 10));
    let b = Quad::new(pt(20, -5), pt(30, -5), pt(30, 5), pt(20, 5));
    let p = Polygon::new(vec![a, b]).unwrap();
    assert_eq!(p.get_bounds(), Bounds { min_x: 0, min_y: -5, max_x: 30, max_y: 10 });
    assert!(p.contains_pt(pt(5, 5)));
    assert!(p.contains_pt(pt(25, 0)));
    assert!(!p.contains_pt(pt(15, 0)));
    assert!(!p.contains_pt(pt(1000, 1000)));
    assert!(!p.contains_pt(pt(i64::MAX, i64::MIN)));
}

#[test]
fn bounds_contains_and_union() {
    let b = Bounds::at(pt(3, 4)).with(pt(-1, 10));
    assert_eq!(b, Bounds { min_x: -1, min_y: 4, max_x: 3, max_y: 10 });
    assert!(b.contains(pt(0, 5)));
    assert!(b.contains(pt(-1, 4)));
    assert!(!b.contains(pt(4, 5)));
    let u = b.union(&Bounds::at(pt(7, 0)));
    assert_eq!(u, Bounds { min_x: -1, min_y: 0, max_x: 7, max_y: 10 });
}
