use tiler::coordinates::from_lat_lng_to_point;
use tiler::coordinates::from_lat_lng_to_tile_coord;
use tiler::coordinates::from_point_to_lat_lng;
use tiler::coordinates::from_tile_coord_to_lat_lng_bounds;
use tiler::coordinates::LatLng;
use tiler::coordinates::Point;
use tiler::coordinates::TileCoord;

/// Degrees (or pixels) to the fixed-point nano units of the library.
fn nano(v: f64) -> i64 {
    (v * 1e9).round() as i64
}

/// Nano units back to degrees (or pixels).
fn units(v: i64) -> f64 {
    v as f64 / 1e9
}

fn assert_close(actual: i64, expected: f64, epsilon: f64) {
    let a = units(actual);
    assert!(
        (a - expected).abs() <= epsilon,
        "value {} not within {} of {}",
        a,
        epsilon,
        expected
    );
}

fn assert_relative(actual: i64, expected: f64, epsilon: f64) {
    let a = units(actual);
    assert!(
        (a - expected).abs() <= epsilon * expected.abs(),
        "value {} not within relative {} of {}",
        a,
        epsilon,
        expected
    );
}

#[test]
fn test_from_lat_lng_to_point() {
    let lat_lng = LatLng::new(0, 0);
    let point = from_lat_lng_to_point(&lat_lng);
    assert_eq!(point.x(), nano(128.0));
    assert_eq!(point.y(), nano(128.0));

    let lat_lng = LatLng::new(0, nano(180.0));
    let point = from_lat_lng_to_point(&lat_lng);
    assert_eq!(point.x(), nano(256.0));
    assert_eq!(point.y(), nano(128.0));

    let lat_lng = LatLng::new(0, nano(-180.0));
    let point = from_lat_lng_to_point(&lat_lng);
    assert_eq!(point.x(), 0);
    assert_eq!(point.y(), nano(128.0));

    let lat_lng = LatLng::new(nano(85.051129), 0);
    let point = from_lat_lng_to_point(&lat_lng);
    assert_eq!(point.x(), nano(128.0));
    assert_close(point.y(), 0.0, 0.001);

    let lat_lng = LatLng::new(nano(-85.051129), 0);
    let point = from_lat_lng_to_point(&lat_lng);
    assert_eq!(point.x(), nano(128.0));
    assert_close(point.y(), 256.0, 0.001);
}

#[test]
fn test_from_point_to_lat_lng() {
    let point = Point::new(nano(128.0), nano(128.0));
    let lat_lng = from_point_to_lat_lng(&point);
    assert_eq!(lat_lng.lat(), 0);
    assert_eq!(lat_lng.lng(), 0);

    let point = Point::new(nano(256.0), nano(128.0));
    let lat_lng = from_point_to_lat_lng(&point);
    assert_eq!(lat_lng.lat(), 0);
    assert_eq!(lat_lng.lng(), nano(180.0));

    let point = Point::new(0, nano(128.0));
    let lat_lng = from_point_to_lat_lng(&point);
    assert_eq!(lat_lng.lat(), 0);
    assert_eq!(lat_lng.lng(), nano(-180.0));

    let point = Point::new(nano(128.0), 0);
    let lat_lng = from_point_to_lat_lng(&point);
    assert_relative(lat_lng.lat(), 85.051129, 0.001);
    assert_close(lat_lng.lng(), 0.0, 0.001);

    let point = Point::new(nano(128.0), nano(256.0));
    let lat_lng = from_point_to_lat_lng(&point);
    assert_relative(lat_lng.lat(), -85.051129, 0.001);
    assert_close(lat_lng.lng(), 0.0, 0.001);
}

#[test]
fn test_from_lat_lng_to_tile_coord() {
    let lat_lng = LatLng::new(0, 0);
    let tile_coord = from_lat_lng_to_tile_coord(&lat_lng, 0);
    assert_eq!(tile_coord.x(), 0);
    assert_eq!(tile_coord.y(), 0);
    assert_eq!(tile_coord.zoom(), 0);

    let lat_lng = LatLng::new(nano(80.0), nano(120.0));
    let tile_coord = from_lat_lng_to_tile_coord(&lat_lng, 0);
    assert_eq!(tile_coord.x(), 0);
    assert_eq!(tile_coord.y(), 0);
    assert_eq!(tile_coord.zoom(), 0);

    let lat_lng = LatLng::new(nano(80.0), nano(-120.0));
    let tile_coord = from_lat_lng_to_tile_coord(&lat_lng, 1);
    assert_eq!(tile_coord.x(), 0);
    assert_eq!(tile_coord.y(), 0);
    assert_eq!(tile_coord.zoom(), 1);

    let lat_lng = LatLng::new(nano(41.0), nano(-134.0));
    let tile_coord = from_lat_lng_to_tile_coord(&lat_lng, 3);
    assert_eq!(tile_coord.x(), 1);
    assert_eq!(tile_coord.y(), 2);
    assert_eq!(tile_coord.zoom(), 3);

    let lat_lng = LatLng::new(nano(6.5), nano(29.7));
    let tile_coord = from_lat_lng_to_tile_coord(&lat_lng, 9);
    assert_eq!(tile_coord.x(), 298);
    assert_eq!(tile_coord.y(), 246);
    assert_eq!(tile_coord.zoom(), 9);
}

#[test]
fn test_from_tile_coord_to_lat_lng_bounds() {
    let tile_coord = TileCoord::new(0, 0, 0);
    let bounds = from_tile_coord_to_lat_lng_bounds(&tile_coord);
    assert_eq!(bounds.min_x(), nano(-180.0));
    assert_relative(bounds.min_y(), -85.051129, 0.0001);
    assert_eq!(bounds.max_x(), nano(180.0));
    assert_relative(bounds.max_y(), 85.051129, 0.0001);

    let tile_coord = TileCoord::new(298, 246, 9);
    let bounds = from_tile_coord_to_lat_lng_bounds(&tile_coord);
    assert_relative(bounds.min_x(), 29.531253, 0.0001);
    assert_relative(bounds.min_y(), 6.315302, 0.0001);
    assert_relative(bounds.max_x(), 30.234373, 0.0001);
    assert_relative(bounds.max_y(), 7.013666, 0.0001);
}

#[test]
fn test_point_round_trip_on_fixtures() {
    // The inverse transform recovers each forward fixture.
    for (lat, lng) in [
        (0.0, 0.0),
        (0.0, 180.0),
        (0.0, -180.0),
        (85.051129, 0.0),
        (-85.051129, 0.0),
    ] {
        let p = from_lat_lng_to_point(&LatLng::new(nano(lat), nano(lng)));
        let back = from_point_to_lat_lng(&Point::new(p.x(), p.y().clamp(0, nano(256.0))));
        assert_close(back.lat(), lat, 0.001);
        assert_close(back.lng(), lng, 0.001);
    }
}

#[test]
fn test_tile_round_trip_interior() {
    // An interior point of a tile's bounds maps back to that tile.
    for (x, y, zoom) in [
        (298u32, 246u32, 9u8),
        (0, 0, 0),
        (5, 9, 4),
        (3, 2, 2),
        (1023, 511, 10),
    ] {
        let bounds = from_tile_coord_to_lat_lng_bounds(&TileCoord::new(x, y, zoom));
        let mid_lat = (bounds.min_y() + bounds.max_y()) / 2;
        let mid_lng = (bounds.min_x() + bounds.max_x()) / 2;
        let tile = from_lat_lng_to_tile_coord(&LatLng::new(mid_lat, mid_lng), zoom);
        assert_eq!(tile.x(), x);
        assert_eq!(tile.y(), y);
        assert_eq!(tile.zoom(), zoom);
    }
}
