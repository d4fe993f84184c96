use tiler::coordinates::TileCoord;
use tiler::dataset::Dataset;
use tiler::tile::normalize_grid;
use tiler::tile::plan_tile;
use tiler::tile::render_tile;
use tiler::tile::Grid;
use tiler::tile::TilePlan;
use tiler::tile::TileQuery;
use tiler::TileError;
use tiler::TILE_SIZE;

fn deg(v: f64) -> i64 {
    (v * 1e9).round() as i64
}

/// The five-by-five demonstration dataset: descending latitudes,
/// ascending longitudes.
fn sample_dataset() -> Dataset {
    let lats: Vec<i64> = vec![deg(85.0), deg(45.0), deg(5.0), deg(-35.0), deg(-75.0)];
    let lons: Vec<i64> = vec![deg(-180.0), deg(-90.0), deg(0.0), deg(90.0), deg(180.0)];
    Dataset::new(lats, lons).unwrap()
}

/// Sample word for source cell `(row, col)`: the bit pattern of a
/// distinct floating-point value.
fn word(row: usize, col: usize) -> u64 {
    ((row * 10 + col) as f64 + 0.5).to_bits()
}

#[test]
fn test_plan_tile_disjoint_is_no_tile() {
    // Dataset far in the north-east; a tile in the south-west quadrant.
    let lats: Vec<i64> = vec![deg(50.0), deg(60.0)];
    let lons: Vec<i64> = vec![deg(100.0), deg(120.0)];
    let dset = Dataset::new(lats, lons).unwrap();
    let tile = TileCoord::new(0, 3, 2);
    match plan_tile(&dset, &tile) {
        TileQuery::NoTile => {}
        TileQuery::Fetch(_) => panic!("disjoint bounds must give no tile"),
    }
    // Disjoint on the longitude axis alone.
    let tile = TileCoord::new(0, 1, 2);
    match plan_tile(&dset, &tile) {
        TileQuery::NoTile => {}
        TileQuery::Fetch(_) => panic!("disjoint bounds must give no tile"),
    }
}

#[test]
fn test_plan_tile_world_tile() {
    let dset = sample_dataset();
    let tile = TileCoord::new(0, 0, 0);
    let plan = match plan_tile(&dset, &tile) {
        TileQuery::Fetch(p) => p,
        TileQuery::NoTile => panic!("overlapping bounds must give a plan"),
    };
    assert_eq!((plan.ranges.lat_start, plan.ranges.lat_end), (0, 4));
    assert_eq!((plan.ranges.lon_start, plan.ranges.lon_end), (0, 4));
    assert_eq!(plan.rect.px, 0);
    assert_eq!(plan.rect.py, 15);
    assert_eq!(plan.rect.x_len, 256);
    assert_eq!(plan.rect.y_len, 241);
    assert!(plan.inv_lat);
    assert!(!plan.inv_lon);
}

fn rendered_world_tile() -> (TilePlan, Vec<Option<u64>>) {
    let dset = sample_dataset();
    let plan = match plan_tile(&dset, &TileCoord::new(0, 0, 0)) {
        TileQuery::Fetch(p) => p,
        TileQuery::NoTile => panic!("overlapping bounds must give a plan"),
    };
    // The storage-order slice the plan asks for: rows 0..4, cols 0..4.
    let mut data: Vec<u64> = Vec::new();
    for row in plan.ranges.lat_start..plan.ranges.lat_end {
        for col in plan.ranges.lon_start..plan.ranges.lon_end {
            data.push(word(row, col));
        }
    }
    let grid = Grid::new(data, 4, 4).unwrap();
    let out = render_tile(&plan, &grid).unwrap();
    (plan, out)
}

#[test]
fn test_render_tile_places_samples_and_sentinels() {
    let (plan, out) = rendered_world_tile();
    assert_eq!(out.len(), TILE_SIZE * TILE_SIZE);

    // Exactly the placed rectangle holds samples; everything else is
    // the no-data marker.
    let mut filled = 0usize;
    for r in 0..TILE_SIZE {
        for c in 0..TILE_SIZE {
            let cell = out[r * TILE_SIZE + c];
            let in_rows = r + plan.rect.py + plan.rect.y_len >= TILE_SIZE && r + plan.rect.py < TILE_SIZE;
            let in_cols = c >= plan.rect.px && c < plan.rect.px + plan.rect.x_len;
            if in_rows && in_cols {
                assert!(cell.is_some());
                filled += 1;
            } else {
                assert!(cell.is_none());
            }
        }
    }
    assert_eq!(filled, plan.rect.x_len * plan.rect.y_len);

    // The bottom filled output row (largest index) samples the
    // southernmost source row, which in this descending-latitude
    // dataset is the last storage row; the top output row samples the
    // first storage row.
    let bottom = 255 - plan.rect.py;
    assert_eq!(out[bottom * TILE_SIZE + 0], Some(word(3, 0)));
    assert_eq!(out[0 * TILE_SIZE + 0], Some(word(0, 0)));

    // Column decimation: 256 output pixels over 4 source columns means
    // 64 pixels per column.
    assert_eq!(out[0 * TILE_SIZE + 63], Some(word(0, 0)));
    assert_eq!(out[0 * TILE_SIZE + 64], Some(word(0, 1)));
    assert_eq!(out[0 * TILE_SIZE + 255], Some(word(0, 3)));
}

#[test]
fn test_render_tile_row_flip() {
    // Increasing latitude maps to strictly decreasing output rows: the
    // sequence of source rows seen while walking output rows downward
    // is monotonically "southward" (non-decreasing storage row in this
    // descending-latitude dataset).
    let (plan, out) = rendered_world_tile();
    let col = 0usize;
    let mut last_row_value: Option<f64> = None;
    for r in 0..TILE_SIZE {
        if let Some(bits) = out[r * TILE_SIZE + col] {
            let v = f64::from_bits(bits);
            if let Some(prev) = last_row_value {
                assert!(v >= prev, "storage row must not move northward going down");
            }
            last_row_value = Some(v);
        }
    }
}

#[test]
fn test_render_tile_rejects_wrong_shape() {
    let dset = sample_dataset();
    let plan = match plan_tile(&dset, &TileCoord::new(0, 0, 0)) {
        TileQuery::Fetch(p) => p,
        TileQuery::NoTile => panic!("overlapping bounds must give a plan"),
    };
    let grid = Grid::new(vec![0u64; 9], 3, 3).unwrap();
    assert_eq!(render_tile(&plan, &grid).unwrap_err(), TileError::Io);
}

#[test]
fn test_grid_new_checks_shape() {
    assert!(Grid::new(vec![1, 2, 3, 4, 5, 6], 2, 3).is_ok());
    assert_eq!(Grid::new(vec![1, 2, 3], 2, 3).unwrap_err(), TileError::Io);
}

#[test]
fn test_normalize_grid_reverses_axes() {
    let grid = Grid::new(vec![1, 2, 3, 4, 5, 6], 2, 3).unwrap();
    let flipped = normalize_grid(&grid, true, false);
    assert_eq!(flipped.data, vec![4, 5, 6, 1, 2, 3]);
    let flipped = normalize_grid(&grid, false, true);
    assert_eq!(flipped.data, vec![3, 2, 1, 6, 5, 4]);
    let flipped = normalize_grid(&grid, true, true);
    assert_eq!(flipped.data, vec![6, 5, 4, 3, 2, 1]);
    let same = normalize_grid(&grid, false, false);
    assert_eq!(same.data, vec![1, 2, 3, 4, 5, 6]);
}

#[test]
fn test_upsampling_repeats_samples() {
    // A tiny source sub-grid under a fine tile: fractional accumulation
    // repeat-samples instead of refusing the tile.  Ascending axes, a
    // two-by-two grid covering the whole world tile.
    let lats: Vec<i64> = vec![deg(-80.0), deg(80.0)];
    let lons: Vec<i64> = vec![deg(-170.0), deg(170.0)];
    let dset = Dataset::new(lats, lons).unwrap();
    let plan = match plan_tile(&dset, &TileCoord::new(0, 0, 0)) {
        TileQuery::Fetch(p) => p,
        TileQuery::NoTile => panic!("overlapping bounds must give a plan"),
    };
    // The end index is exclusive (the nearest sample of each maximum is
    // left out), so the slice is a single cell.
    assert_eq!((plan.ranges.lat_start, plan.ranges.lat_end), (0, 1));
    assert_eq!((plan.ranges.lon_start, plan.ranges.lon_end), (0, 1));
    let grid = Grid::new(vec![word(0, 0)], 1, 1).unwrap();
    let out = render_tile(&plan, &grid).unwrap();
    // Every filled cell repeats that one sample.
    let top = TILE_SIZE - plan.rect.py - plan.rect.y_len;
    let bottom = 255 - plan.rect.py;
    let right = plan.rect.px + plan.rect.x_len - 1;
    assert_eq!(out[top * TILE_SIZE + plan.rect.px], Some(word(0, 0)));
    assert_eq!(out[top * TILE_SIZE + plan.rect.px + 1], Some(word(0, 0)));
    assert_eq!(out[bottom * TILE_SIZE + right], Some(word(0, 0)));
}
