use gis_map::geom::{GisLine, GisPoint, GisRect};
use gis_map::proj::{latitude_to_y, longitude_to_x, zoom_scale};

fn pt(x: i64, y: i64) -> GisPoint {
    GisPoint { x, y }
}

fn seg(x1: i64, y1: i64, x2: i64, y2: i64) -> GisLine {
    GisLine { p1: pt(x1, y1), p2: pt(x2, y2) }
}

#[test]
fn segments_crossing_at_interior_point() {
    assert!(seg(0, 0, 10, 10).cross(&seg(0, 10, 10, 0)));
}

#[test]
fn segments_with_disjoint_boxes_do_not_cross() {
    assert!(!seg(0, 0, 1, 1).cross(&seg(5, 5, 6, 7)));
    assert!(!seg(0, 0, 1, 0).cross(&seg(3, 1, 4, 5)));
}

#[test]
fn segment_crosses_itself() {
    let s = seg(-3, 7, 12, -4);
    assert!(s.cross(&s));
}

#[test]
fn touching_segments_cross() {
    assert!(seg(0, 0, 5, 0).cross(&seg(5, 0, 5, 9)));
}

#[test]
fn collinear_segments_count_as_crossing() {
    assert!(seg(0, 0, 1, 0).cross(&seg(2, 0, 3, 0)));
}

#[test]
fn rect_holding_segment_is_crossed() {
    let r = GisRect { min: pt(0, 0), max: pt(10, 10) };
    assert!(r.cross(&seg(2, 2, 3, 3)));
}

#[test]
fn rect_missed_by_far_segment() {
    let r = GisRect { min: pt(0, 0), max: pt(10, 10) };
    assert!(!r.cross(&seg(20, 0, 20, 10)));
}

#[test]
fn rect_crossed_by_passing_segment() {
    let r = GisRect { min: pt(0, 0), max: pt(10, 10) };
    assert!(r.cross(&seg(-5, 5, 15, 5)));
}

#[test]
fn rect_contains_border_points() {
    let r = GisRect { min: pt(0, 0), max: pt(10, 10) };
    assert!(r.contains(&pt(0, 10)));
    assert!(!r.contains(&pt(11, 5)));
}

#[test]
fn rect_overlap_is_permissive() {
    let r = GisRect { min: pt(0, 0), max: pt(10, 10) };
    assert!(r.intersection(&GisRect { min: pt(10, 10), max: pt(20, 20) }));
    assert!(!r.intersection(&GisRect { min: pt(11, 0), max: pt(20, 5) }));
}

#[test]
fn longitude_projection_values() {
    assert_eq!(longitude_to_x(-180_000_000, 0), 0);
    assert_eq!(longitude_to_x(0, 0), 536_870_912);
    assert_eq!(longitude_to_x(180_000_000, 0), 1_073_741_824);
    assert_eq!(longitude_to_x(90_000_000, 2), 3_221_225_472);
}

#[test]
fn longitude_projection_increases() {
    let mut last = longitude_to_x(-180_000_000, 5);
    for lon in [-179_999_999i64, -1, 0, 1, 116_400_000, 180_000_000] {
        let x = longitude_to_x(lon, 5);
        assert!(x > last);
        last = x;
    }
}

#[test]
fn latitude_projection_values() {
    assert_eq!(latitude_to_y(5, 3), 40);
    assert_eq!(latitude_to_y(-7, 1), -14);
    assert!(latitude_to_y(100, 4) < latitude_to_y(101, 4));
}

#[test]
fn next_zoom_doubles_coordinates() {
    for z in 0u32..30 {
        assert_eq!(longitude_to_x(116_400_000, z + 1), 2 * longitude_to_x(116_400_000, z));
        assert_eq!(latitude_to_y(-300_000_000, z + 1), 2 * latitude_to_y(-300_000_000, z));
    }
    assert_eq!(zoom_scale(3, 30), 3 << 30);
}
