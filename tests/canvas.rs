use gis_map::canvas::{GisColor, GisImage};
use gis_map::geom::GisPoint;
use gis_map::tile::{GisTile, GisXYZ};

const PNG_SIGNATURE: [u8; 8] = [137, 80, 78, 71, 13, 10, 26, 10];

const WHITE: GisColor = GisColor { r: 255, g: 255, b: 255 };

#[test]
fn new_image_has_its_size() {
    let img = GisImage::new(3, 2);
    assert_eq!(img.width(), 3);
    assert_eq!(img.height(), 2);
    let bytes = img.dump().unwrap();
    assert_eq!(&bytes[..8], &PNG_SIGNATURE);
}

#[test]
fn fill_changes_every_pixel() {
    let mut img = GisImage::new(4, 4);
    let black = img.dump().unwrap();
    img.fill(GisColor { r: 10, g: 20, b: 30 });
    let filled = img.dump().unwrap();
    assert_ne!(black, filled);
    let mut other = GisImage::new(4, 4);
    for y in 0..4 {
        for x in 0..4 {
            other.draw_pixel(x, y, GisColor { r: 10, g: 20, b: 30 });
        }
    }
    assert_eq!(other.dump().unwrap(), filled);
}

#[test]
fn single_pixel_changes_image() {
    let mut img = GisImage::new(4, 4);
    let black = img.dump().unwrap();
    img.draw_pixel(3, 3, WHITE);
    assert_ne!(img.dump().unwrap(), black);
}

#[test]
fn image_polygon_is_drawn() {
    let mut img = GisImage::new(16, 16);
    let black = img.dump().unwrap();
    img.draw_polygon(&[GisPoint { x: 2, y: 2 }, GisPoint { x: 12, y: 2 }, GisPoint { x: 7, y: 12 }], WHITE);
    assert_ne!(img.dump().unwrap(), black);
    let mut one = GisImage::new(16, 16);
    one.draw_polygon(&[GisPoint { x: 2, y: 2 }], WHITE);
    assert_eq!(one.dump().unwrap(), black);
}

#[test]
fn off_canvas_line_is_tolerated() {
    let mut img = GisImage::new(8, 8);
    let black = img.dump().unwrap();
    img.draw_line(-1000, -1000, -500, -900, WHITE);
    assert_eq!(img.dump().unwrap(), black);
    img.draw_line(-1000, 4, 1000, 4, WHITE);
    assert_ne!(img.dump().unwrap(), black);
}

#[test]
fn far_line_is_cut_back_not_dropped() {
    let mut img = GisImage::new(8, 8);
    let black = img.dump().unwrap();
    img.draw_line(-(1 << 40), 4, 1 << 40, 4, WHITE);
    let far = img.dump().unwrap();
    assert_ne!(far, black);
    let mut near = GisImage::new(8, 8);
    near.draw_line(-100, 4, 100, 4, WHITE);
    assert_eq!(near.dump().unwrap(), far);
    let mut missed = GisImage::new(8, 8);
    missed.draw_line(1 << 40, -(1 << 40), 1 << 41, 1 << 40, WHITE);
    assert_eq!(missed.dump().unwrap(), black);
}

#[test]
fn tile_border_is_drawn() {
    let mut tile = GisTile::new(&GisXYZ { x: 1, y: 0, z: 2 });
    let blank = tile.dump().unwrap();
    tile.draw_border(WHITE);
    assert_ne!(tile.dump().unwrap(), blank);
}

#[test]
fn tile_edges_outside_are_skipped() {
    let t = GisXYZ { x: 0, y: 0, z: 1 };
    let mut tile = GisTile::new(&t);
    let blank = tile.dump().unwrap();
    // both ends in the neighbouring tile to the east
    tile.draw_line(&GisPoint { x: 600_000_000, y: 100_000_000 }, &GisPoint { x: 700_000_000, y: 200_000_000 }, WHITE);
    assert_eq!(tile.dump().unwrap(), blank);
    tile.draw_polyline(
        &[GisPoint { x: 100_000_000, y: 100_000_000 }, GisPoint { x: 700_000_000, y: 200_000_000 }],
        WHITE,
    );
    assert_ne!(tile.dump().unwrap(), blank);
}

#[test]
fn long_edge_is_drawn_at_deep_zoom() {
    // a horizontal edge across the whole world, 2^31 pixels to either side of
    // the tile, through the tile's middle row
    let t = GisXYZ { x: 1 << 23, y: 1 << 23, z: 24 };
    let mut tile = GisTile::new(&t);
    let blank = tile.dump().unwrap();
    let y = (1i64 << 29) + 32;
    tile.draw_line(&GisPoint { x: 0, y }, &GisPoint { x: 1 << 30, y }, WHITE);
    assert_ne!(tile.dump().unwrap(), blank);
}

#[test]
fn tile_overlap_test() {
    let tile = GisTile::new(&GisXYZ { x: 1, y: 1, z: 1 });
    let inside = gis_map::geom::GisRect {
        min: GisPoint { x: 600_000_000, y: 600_000_000 },
        max: GisPoint { x: 700_000_000, y: 700_000_000 },
    };
    let outside = gis_map::geom::GisRect {
        min: GisPoint { x: 100_000_000, y: 100_000_000 },
        max: GisPoint { x: 200_000_000, y: 200_000_000 },
    };
    assert!(tile.intersection(&inside));
    assert!(!tile.intersection(&outside));
}
