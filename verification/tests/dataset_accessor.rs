use tiler::bounds::Bounds;
use tiler::dataset::nearest_index;
use tiler::dataset::Dataset;
use tiler::TileError;

fn deg(v: f64) -> i64 {
    (v * 1e9).round() as i64
}

#[test]
fn test_nearest_index_ascending() {
    let axis: Vec<i64> = vec![deg(0.0), deg(1.0), deg(2.0), deg(3.0), deg(4.0)];
    assert_eq!(nearest_index(&axis, deg(0.0)), 0);
    assert_eq!(nearest_index(&axis, deg(2.2)), 2);
    assert_eq!(nearest_index(&axis, deg(2.8)), 3);
    assert_eq!(nearest_index(&axis, deg(4.0)), 4);
    // Outside the axis: the nearest end wins.
    assert_eq!(nearest_index(&axis, deg(-7.0)), 0);
    assert_eq!(nearest_index(&axis, deg(99.0)), 4);
}

#[test]
fn test_nearest_index_tie_takes_lower_index() {
    // 1.0 is equally far from 0.0 and 2.0: the lower index wins.
    let axis: Vec<i64> = vec![deg(0.0), deg(2.0), deg(4.0)];
    assert_eq!(nearest_index(&axis, deg(1.0)), 0);
    assert_eq!(nearest_index(&axis, deg(3.0)), 1);
}

#[test]
fn test_nearest_index_descending() {
    let axis: Vec<i64> = vec![deg(60.0), deg(40.0), deg(20.0), deg(0.0)];
    assert_eq!(nearest_index(&axis, deg(55.0)), 0);
    assert_eq!(nearest_index(&axis, deg(21.0)), 2);
    assert_eq!(nearest_index(&axis, deg(-5.0)), 3);
}

#[test]
fn test_dataset_orientation_flags_and_bounds() {
    // Ascending longitudes, descending latitudes: the common satellite
    // product layout.
    let lats: Vec<i64> = vec![deg(59.5), deg(53.0), deg(47.0)];
    let lons: Vec<i64> = vec![deg(-139.0), deg(-130.0), deg(-121.5)];
    let dset = Dataset::new(lats, lons).unwrap();
    let b = dset.get_bounds();
    assert_eq!(b.min_x(), deg(-139.0));
    assert_eq!(b.max_x(), deg(-121.5));
    assert_eq!(b.min_y(), deg(47.0));
    assert_eq!(b.max_y(), deg(59.5));

    // Both ascending.
    let lats: Vec<i64> = vec![deg(10.0), deg(20.0)];
    let lons: Vec<i64> = vec![deg(100.0), deg(110.0)];
    let dset = Dataset::new(lats, lons).unwrap();
    let b = dset.get_bounds();
    assert_eq!(b.min_x(), deg(100.0));
    assert_eq!(b.max_x(), deg(110.0));
    assert_eq!(b.min_y(), deg(10.0));
    assert_eq!(b.max_y(), deg(20.0));
}

#[test]
fn test_dataset_rejects_short_axis() {
    let lats: Vec<i64> = vec![deg(10.0)];
    let lons: Vec<i64> = vec![deg(100.0), deg(110.0)];
    assert_eq!(Dataset::new(lats, lons).unwrap_err(), TileError::Schema);

    let lats: Vec<i64> = vec![deg(10.0), deg(20.0)];
    let lons: Vec<i64> = vec![];
    assert_eq!(Dataset::new(lats, lons).unwrap_err(), TileError::Schema);
}

#[test]
fn test_dataset_rejects_out_of_range_axis() {
    // A coordinate beyond 360 degrees cannot be a geographic axis
    // sample.
    let lats: Vec<i64> = vec![deg(10.0), deg(20.0)];
    let lons: Vec<i64> = vec![deg(100.0), deg(500.0)];
    assert_eq!(Dataset::new(lats, lons).unwrap_err(), TileError::Schema);
}

#[test]
fn test_index_ranges_descending_latitude() {
    let lats: Vec<i64> = vec![deg(85.0), deg(45.0), deg(5.0), deg(-35.0), deg(-75.0)];
    let lons: Vec<i64> = vec![deg(-180.0), deg(-90.0), deg(0.0), deg(90.0), deg(180.0)];
    let dset = Dataset::new(lats, lons).unwrap();
    let query = Bounds::new(deg(-180.0), deg(-75.0), deg(180.0), deg(85.0));
    let r = dset.index_ranges(&query);
    // Descending latitude axis: the bounds' maximum maps to the start.
    assert_eq!((r.lat_start, r.lat_end), (0, 4));
    assert_eq!((r.lon_start, r.lon_end), (0, 4));

    let partial = Bounds::new(deg(-100.0), deg(-40.0), deg(10.0), deg(50.0));
    let r = dset.index_ranges(&partial);
    // Nearest samples of 50 and -40 among the latitudes, of -100 and 10
    // among the longitudes.
    assert_eq!((r.lat_start, r.lat_end), (1, 3));
    assert_eq!((r.lon_start, r.lon_end), (1, 2));
}
