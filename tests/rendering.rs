use gis_map::geom::{GisPoint, GisRect};
use gis_map::tile::{draw_tile, GisFeature, GisShape, GisXYZ, Layer};

const PNG_SIGNATURE: [u8; 8] = [137, 80, 78, 71, 13, 10, 26, 10];

fn pt(x: i64, y: i64) -> GisPoint {
    GisPoint { x, y }
}

fn square(layer: Layer, lo: i64, hi: i64) -> GisFeature {
    GisFeature {
        layer,
        shape: GisShape::Polygon {
            bbox: GisRect { min: pt(lo, lo), max: pt(hi, hi) },
            rings: vec![vec![pt(lo, lo), pt(hi, lo), pt(hi, hi), pt(lo, hi)]],
        },
    }
}

fn diagonal(layer: Layer, lo: i64, hi: i64) -> GisFeature {
    GisFeature {
        layer,
        shape: GisShape::Polyline {
            bbox: GisRect { min: pt(lo, lo), max: pt(hi, hi) },
            parts: vec![vec![pt(lo, lo), pt(hi, hi)]],
        },
    }
}

#[test]
fn empty_tile_is_png() {
    let bytes = draw_tile(&GisXYZ { x: 0, y: 0, z: 0 }, &vec![]).unwrap();
    assert!(bytes.len() > 8);
    assert_eq!(&bytes[..8], &PNG_SIGNATURE);
}

#[test]
fn rendering_is_deterministic() {
    let features = vec![square(Layer::Country, 1 << 28, 1 << 29), diagonal(Layer::River, 0, 1 << 30)];
    let t = GisXYZ { x: 4, y: 2, z: 3 };
    let a = draw_tile(&t, &features).unwrap();
    let b = draw_tile(&t, &features).unwrap();
    assert_eq!(a, b);
}

#[test]
fn visible_feature_changes_tile() {
    let t = GisXYZ { x: 0, y: 0, z: 0 };
    let empty = draw_tile(&t, &vec![]).unwrap();
    let drawn = draw_tile(&t, &vec![square(Layer::Country, 1 << 28, 1 << 29)]).unwrap();
    assert_ne!(empty, drawn);
    let line = draw_tile(&t, &vec![diagonal(Layer::Country, 0, 1 << 30)]).unwrap();
    assert_ne!(empty, line);
}

#[test]
fn feature_outside_tile_draws_nothing() {
    let t = GisXYZ { x: 1, y: 1, z: 1 };
    let empty = draw_tile(&t, &vec![]).unwrap();
    let culled = draw_tile(&t, &vec![square(Layer::Country, 1 << 27, 1 << 28)]).unwrap();
    assert_eq!(empty, culled);
}

#[test]
fn layer_hidden_below_its_zoom() {
    let t = GisXYZ { x: 0, y: 0, z: 0 };
    let empty = draw_tile(&t, &vec![]).unwrap();
    for layer in [Layer::Province, Layer::City, Layer::Rail, Layer::Road, Layer::River] {
        assert_eq!(draw_tile(&t, &vec![square(layer, 1 << 28, 1 << 29)]).unwrap(), empty);
    }
}

#[test]
fn layer_styles_follow_zoom_table() {
    assert_eq!(Layer::Country.style().min_zoom, 0);
    assert_eq!(Layer::Province.style().min_zoom, 2);
    assert_eq!(Layer::City.style().min_zoom, 4);
    assert_eq!(Layer::Rail.style().min_zoom, 6);
    assert_eq!(Layer::Road.style().min_zoom, 6);
    assert_eq!(Layer::River.style().min_zoom, 6);
}

#[test]
fn layer_shown_from_its_zoom() {
    let t = GisXYZ { x: 0, y: 0, z: 6 };
    let empty = draw_tile(&t, &vec![]).unwrap();
    let road = draw_tile(&t, &vec![diagonal(Layer::Road, 0, 1 << 24)]).unwrap();
    assert_ne!(road, empty);
}
