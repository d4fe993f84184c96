//! Tile assembly: source sub-grids, pixel placement and the decimation
//! loop.
//!
//! The data values themselves are opaque 64-bit sample words (the caller
//! typically stores floating-point bit patterns in them); the library
//! never interprets them, it only selects and places them.  A produced
//! tile is a flat row-major raster of `TILE_SIZE * TILE_SIZE` cells,
//! each either a sample or `None`, the explicit per-pixel no-data
//! marker.

use vstd::prelude::*;

use vstd::arithmetic::div_mod::lemma_div_pos_is_pos;
use vstd::arithmetic::div_mod::lemma_fundamental_div_mod;
use vstd::arithmetic::div_mod::lemma_mod_bound;
use vstd::arithmetic::div_mod::lemma_multiply_divide_lt;
use vstd::arithmetic::mul::lemma_mul_inequality;
use vstd::arithmetic::mul::lemma_mul_strict_inequality;

use vstd::arithmetic::power2::pow2;

use crate::bounds::Bounds;
use crate::coordinates::from_tile_coord_to_lat_lng_bounds;
use crate::coordinates::tile_bounds_spec;
use crate::coordinates::TileCoord;
use crate::dataset::range_spec;
use crate::dataset::AxisRanges;
use crate::dataset::Dataset;
use crate::TileError;

verus! {

/// A dense row-major sub-array of sample words, `rows * cols` of them.
#[derive(Debug)]
pub struct Grid {
    pub data: Vec<u64>,
    pub rows: usize,
    pub cols: usize,
}

impl Grid {
    /// The flat data really holds `rows * cols` samples.
    pub open spec fn wf(self) -> bool {
        self.data@.len() == self.rows * self.cols
    }

    /// The sample in row `r`, column `c`.
    pub open spec fn at(self, r: int, c: int) -> u64 {
        self.data@[r * self.cols + c]
    }

    /// The sample at `(r, c)` once each flagged axis has been read in
    /// reverse: the value the grid has at that position after
    /// normalization to ascending axis order.
    pub open spec fn oriented_at(self, flip_rows: bool, flip_cols: bool, r: int, c: int) -> u64 {
        self.at(
            if flip_rows {
                self.rows - 1 - r
            } else {
                r
            },
            if flip_cols {
                self.cols - 1 - c
            } else {
                c
            },
        )
    }

    /// Wraps a flat slice read; succeeds exactly when the length
    /// matches the claimed shape.
    pub fn new(data: Vec<u64>, rows: usize, cols: usize) -> (g: Result<Grid, TileError>)
        ensures
            g is Ok <==> data@.len() == rows * cols,
            g matches Ok(gr) ==> {
                &&& gr.data@ == data@
                &&& gr.rows == rows
                &&& gr.cols == cols
                &&& gr.wf()
            },
            g is Err ==> g == Err::<Grid, TileError>(TileError::Io),
    {
        let dl: usize = data.len();
        match rows.checked_mul(cols) {
            Some(n) => {
                if n == dl {
                    Ok(Grid { data, rows, cols })
                } else {
                    Err(TileError::Io)
                }
            },
            None => {
                proof {
                    assert(data@.len() <= usize::MAX);
                }
                Err(TileError::Io)
            },
        }
    }

    /// Reads one sample.
    pub fn value_at(&self, r: usize, c: usize) -> (v: u64)
        requires
            self.wf(),
            r < self.rows,
            c < self.cols,
        ensures
            v == self.at(r as int, c as int),
    {
        let n: usize = self.data.len();
        proof {
            lemma_grid_index(r as int, c as int, self.rows as int, self.cols as int);
            assert(r * self.cols + c < n);
        }
        let idx: usize = r * self.cols + c;
        self.data[idx]
    }
}

/// A row/column pair within a grid's shape addresses a flat index
/// within the grid's length.
proof fn lemma_grid_index(r: int, c: int, rows: int, cols: int)
    requires
        0 <= r < rows,
        0 <= c < cols,
    ensures
        0 <= r * cols + c < rows * cols,
{
    lemma_mul_inequality(r, rows - 1, cols);
    assert((rows - 1) * cols + cols == rows * cols) by (nonlinear_arith);
    assert(r * cols >= 0) by (nonlinear_arith)
        requires
            r >= 0,
            cols >= 0,
    ;
}

/// Reverses the flagged axes of a sub-grid so the result is in
/// ascending-latitude, ascending-longitude order: cell `(r, c)` of the
/// result is [`Grid::oriented_at`] `(r, c)` of the input.
pub fn normalize_grid(g: &Grid, flip_rows: bool, flip_cols: bool) -> (out: Grid)
    requires
        g.wf(),
    ensures
        out.wf(),
        out.rows == g.rows,
        out.cols == g.cols,
        forall|r: int, c: int|
            0 <= r < g.rows && 0 <= c < g.cols ==> #[trigger] out.at(r, c) == g.oriented_at(
                flip_rows,
                flip_cols,
                r,
                c,
            ),
{
    let rows: usize = g.rows;
    let cols: usize = g.cols;
    let mut data: Vec<u64> = Vec::new();
    let mut r: usize = 0;
    while r < rows
        invariant
            g.wf(),
            rows == g.rows,
            cols == g.cols,
            r <= rows,
            data@.len() == r * cols,
            forall|r2: int, c2: int|
                0 <= r2 < r && 0 <= c2 < cols ==> #[trigger] data@[r2 * cols + c2]
                    == g.oriented_at(flip_rows, flip_cols, r2, c2),
        decreases rows - r,
    {
        let mut c: usize = 0;
        while c < cols
            invariant
                g.wf(),
                rows == g.rows,
                cols == g.cols,
                r < rows,
                c <= cols,
                data@.len() == r * cols + c,
                forall|r2: int, c2: int|
                    0 <= r2 < r && 0 <= c2 < cols ==> #[trigger] data@[r2 * cols + c2]
                        == g.oriented_at(flip_rows, flip_cols, r2, c2),
                forall|c2: int|
                    0 <= c2 < c ==> #[trigger] data@[r * cols + c2] == g.oriented_at(
                        flip_rows,
                        flip_cols,
                        r as int,
                        c2,
                    ),
            decreases cols - c,
        {
            proof {
                lemma_grid_index(r as int, c as int, rows as int, cols as int);
            }
            let sr: usize = if flip_rows {
                rows - 1 - r
            } else {
                r
            };
            let sc: usize = if flip_cols {
                cols - 1 - c
            } else {
                c
            };
            data.push(g.value_at(sr, sc));
            proof {
                let prev = data@.len() - 1;
                assert forall|r2: int, c2: int| 0 <= r2 < r && 0 <= c2 < cols implies #[trigger] (
                data@[r2 * cols + c2]) == g.oriented_at(flip_rows, flip_cols, r2, c2) by {
                    lemma_grid_index(r2, c2, r as int, cols as int);
                    assert(r * cols <= prev) by (nonlinear_arith)
                        requires
                            prev == r * cols + c,
                            c >= 0,
                    ;
                }
            }
            c = c + 1;
        }
        proof {
            assert(r * cols + cols == (r + 1) * cols) by (nonlinear_arith);
        }
        r = r + 1;
    }
    proof {
        assert forall|r2: int, c2: int| 0 <= r2 < rows && 0 <= c2 < cols implies #[trigger] (
        Grid { data: data, rows, cols }).at(r2, c2) == g.oriented_at(
            flip_rows,
            flip_cols,
            r2,
            c2,
        ) by {
            lemma_grid_index(r2, c2, rows as int, cols as int);
        }
    }
    Grid { data, rows, cols }
}

/// Placement of a geographic intersection inside the output tile:
/// top-left output pixel `(px, py)` and pixel extent `(x_len, y_len)`.
#[derive(Clone, Copy, PartialEq, Eq, Structural, Debug)]
pub struct PixelRect {
    pub px: usize,
    pub py: usize,
    pub x_len: usize,
    pub y_len: usize,
}

/// Floor of `off * 256 / span`: which output pixel a coordinate offset
/// falls in.
pub open spec fn px_floor(off: int, span: int) -> int {
    (off * 256) / span
}

/// `(hi - lo) * 256 / span` rounded to the nearest integer: how many
/// output pixels an extent covers.
pub open spec fn px_round_len(lo: int, hi: int, span: int) -> int {
    ((hi - lo) * 512 + span) / (2 * span)
}

/// The floor-placed origin plus the rounded length never leaves the
/// 256-pixel tile.
proof fn lemma_px_fit(a: int, b: int, s: int)
    requires
        0 <= a <= b <= s,
        1 <= s,
    ensures
        0 <= px_floor(a, s),
        0 <= px_round_len(a, b, s),
        px_floor(a, s) + px_round_len(a, b, s) <= 256,
        px_round_len(a, b, s) <= 256,
{
    let p = px_floor(a, s);
    let l = px_round_len(a, b, s);
    lemma_div_pos_is_pos(a * 256, s);
    lemma_div_pos_is_pos((b - a) * 512 + s, 2 * s);
    lemma_fundamental_div_mod(a * 256, s);
    lemma_fundamental_div_mod((b - a) * 512 + s, 2 * s);
    lemma_mod_bound(a * 256, s);
    lemma_mod_bound((b - a) * 512 + s, 2 * s);
    assert(s * p <= a * 256);
    assert((2 * s) * l <= (b - a) * 512 + s);
    assert(2 * (s * p) + (2 * s) * l <= 512 * b + s);
    assert(512 * b + s <= 513 * s);
    assert(2 * (s * p) + (2 * s) * l == s * (2 * p + 2 * l)) by (nonlinear_arith);
    assert(s * (2 * p + 2 * l) <= 513 * s);
    assert(2 * p + 2 * l <= 513) by (nonlinear_arith)
        requires
            s * (2 * p + 2 * l) <= 513 * s,
            s >= 1,
    ;
}

/// Maps a rectangle already shifted to the tile origin (coordinates
/// relative to the tile's minima, in the tile's units) onto output
/// pixels: floor placement of the origin, round-to-nearest extent, as
/// [`px_floor`] and [`px_round_len`] state.  The placement always fits
/// the tile: `px + x_len <= 256` and `py + y_len <= 256`.
pub fn pixel_extent(rel: &Bounds, span_x: i64, span_y: i64) -> (r: PixelRect)
    requires
        1 <= span_x <= 800_000_000_000,
        1 <= span_y <= 800_000_000_000,
        0 <= rel.min_x <= rel.max_x <= span_x,
        0 <= rel.min_y <= rel.max_y <= span_y,
    ensures
        r.px as int == px_floor(rel.min_x as int, span_x as int),
        r.py as int == px_floor(rel.min_y as int, span_y as int),
        r.x_len as int == px_round_len(rel.min_x as int, rel.max_x as int, span_x as int),
        r.y_len as int == px_round_len(rel.min_y as int, rel.max_y as int, span_y as int),
        r.px + r.x_len <= 256,
        r.py + r.y_len <= 256,
{
    proof {
        lemma_px_fit(rel.min_x as int, rel.max_x as int, span_x as int);
        lemma_px_fit(rel.min_y as int, rel.max_y as int, span_y as int);
    }
    let sx: u64 = span_x as u64;
    let sy: u64 = span_y as u64;
    let px_w: u64 = ((rel.min_x as u64) * 256) / sx;
    let py_w: u64 = ((rel.min_y as u64) * 256) / sy;
    let xl_w: u64 = (((rel.max_x - rel.min_x) as u64) * 512 + sx) / (2 * sx);
    let yl_w: u64 = (((rel.max_y - rel.min_y) as u64) * 512 + sy) / (2 * sy);
    PixelRect { px: px_w as usize, py: py_w as usize, x_len: xl_w as usize, y_len: yl_w as usize }
}

/// Everything the caller must fetch and how the result is placed: the
/// storage-order index ranges to read, the orientation flags to undo,
/// and the pixel placement of the intersection inside the tile.
#[derive(Clone, Copy, PartialEq, Eq, Structural, Debug)]
pub struct TilePlan {
    pub ranges: AxisRanges,
    pub rect: PixelRect,
    pub inv_lat: bool,
    pub inv_lon: bool,
}

impl TilePlan {
    /// Rows of the sub-grid the ranges select.
    pub open spec fn rows_spec(self) -> int {
        self.ranges.lat_end - self.ranges.lat_start
    }

    /// Columns of the sub-grid the ranges select.
    pub open spec fn cols_spec(self) -> int {
        self.ranges.lon_end - self.ranges.lon_start
    }

    /// The plan asks for a non-empty sub-grid and a non-empty placement
    /// that fits the tile.
    pub open spec fn wf(self) -> bool {
        &&& self.ranges.lat_start < self.ranges.lat_end
        &&& self.ranges.lon_start < self.ranges.lon_end
        &&& self.rect.x_len >= 1
        &&& self.rect.y_len >= 1
        &&& self.rect.px + self.rect.x_len <= 256
        &&& self.rect.py + self.rect.y_len <= 256
    }
}

/// Runtime test for [`TilePlan::wf`].
fn plan_checks(plan: &TilePlan) -> (b: bool)
    ensures
        b == plan.wf(),
{
    plan.ranges.lat_start < plan.ranges.lat_end && plan.ranges.lon_start < plan.ranges.lon_end
        && plan.rect.x_len >= 1 && plan.rect.y_len >= 1 && plan.rect.x_len <= 256
        && plan.rect.y_len <= 256 && plan.rect.px <= 256 && plan.rect.py <= 256 && plan.rect.px
        + plan.rect.x_len <= 256 && plan.rect.py + plan.rect.y_len <= 256
}

/// What one output cell of the finished tile holds: inside the placed
/// rectangle, the nearest-neighbor decimation sample of the normalized
/// source sub-grid, with the row flip that maps increasing latitude to
/// decreasing output row; outside it, `None`, the no-data marker.
pub open spec fn cell_spec(plan: TilePlan, raw: Grid, r: int, c: int) -> Option<u64> {
    if plan.rect.px <= c < plan.rect.px + plan.rect.x_len && 256 - plan.rect.py - plan.rect.y_len
        <= r < 256 - plan.rect.py {
        let yi = 255 - plan.rect.py - r;
        let xi = c - plan.rect.px;
        Some(
            raw.oriented_at(
                plan.inv_lat,
                plan.inv_lon,
                (yi * plan.rows_spec()) / (plan.rect.y_len as int),
                (xi * plan.cols_spec()) / (plan.rect.x_len as int),
            ),
        )
    } else {
        Option::None
    }
}

/// Decimation sample index: with `yi` counting output pixels inside the
/// placement and a fractional stride of `n / len` source samples per
/// output pixel, the sample picked for pixel `yi` is `floor(yi * n /
/// len)` — exact rational arithmetic, no drifting accumulator.
fn sample_idx(yi: usize, n: usize, len: usize) -> (r: usize)
    requires
        yi < len,
        n >= 1,
    ensures
        r as int == (yi * n) / (len as int),
        r < n,
{
    proof {
        lemma_mul_strict_inequality(yi as int, len as int, n as int);
        lemma_multiply_divide_lt(yi * n, len as int, n as int);
        lemma_div_pos_is_pos(yi * n, len as int);
        assert((yi as u128) * (n as u128) == (yi * n) as u128) by (nonlinear_arith)
            requires
                yi <= u64::MAX,
                n <= u64::MAX,
    ;
    }
    (((yi as u128) * (n as u128)) / (len as u128)) as usize
}

/// Renders the finished tile from a plan and the raw storage-order
/// sub-grid read for it.  Succeeds exactly when the plan is well-formed
/// and the grid has the shape the plan's index ranges select; the
/// result is then the `TILE_SIZE * TILE_SIZE` row-major raster whose
/// every cell is exactly [`cell_spec`]: a decimation sample inside the
/// placed intersection, `None` outside it.
pub fn render_tile(plan: &TilePlan, raw: &Grid) -> (res: Result<Vec<Option<u64>>, TileError>)
    ensures
        res is Ok <==> (plan.wf() && raw.wf() && raw.rows == plan.rows_spec() && raw.cols
            == plan.cols_spec()),
        res matches Ok(out) ==> {
            &&& out@.len() == 65536
            &&& forall|r: int, c: int|
                0 <= r < 256 && 0 <= c < 256 ==> #[trigger] out@[r * 256 + c] == cell_spec(
                    *plan,
                    *raw,
                    r,
                    c,
                )
        },
        res is Err ==> res == Err::<Vec<Option<u64>>, TileError>(TileError::Io),
{
    if !plan_checks(plan) {
        return Err(TileError::Io);
    }
    let rows: usize = plan.ranges.lat_end - plan.ranges.lat_start;
    let cols: usize = plan.ranges.lon_end - plan.ranges.lon_start;
    if !(raw.rows == rows && raw.cols == cols) {
        return Err(TileError::Io);
    }
    let dlen: usize = raw.data.len();
    match raw.rows.checked_mul(raw.cols) {
        Some(n) => {
            if n != dlen {
                return Err(TileError::Io);
            }
        },
        None => {
            proof {
                assert(raw.data@.len() <= usize::MAX);
            }
            return Err(TileError::Io);
        },
    }
    let norm: Grid = normalize_grid(raw, plan.inv_lat, plan.inv_lon);
    let mut out: Vec<Option<u64>> = Vec::new();
    let mut r: usize = 0;
    while r < 256
        invariant
            plan.wf(),
            raw.wf(),
            norm.wf(),
            norm.rows == raw.rows,
            norm.cols == raw.cols,
            raw.rows == rows == plan.rows_spec(),
            raw.cols == cols == plan.cols_spec(),
            forall|r2: int, c2: int|
                0 <= r2 < norm.rows && 0 <= c2 < norm.cols ==> #[trigger] norm.at(r2, c2)
                    == raw.oriented_at(plan.inv_lat, plan.inv_lon, r2, c2),
            r <= 256,
            out@.len() == r * 256,
            forall|r2: int, c2: int|
                0 <= r2 < r && 0 <= c2 < 256 ==> #[trigger] out@[r2 * 256 + c2] == cell_spec(
                    *plan,
                    *raw,
                    r2,
                    c2,
                ),
        decreases 256 - r,
    {
        let mut c: usize = 0;
        while c < 256
            invariant
                plan.wf(),
                raw.wf(),
                norm.wf(),
                norm.rows == raw.rows,
                norm.cols == raw.cols,
                raw.rows == rows == plan.rows_spec(),
                raw.cols == cols == plan.cols_spec(),
                forall|r2: int, c2: int|
                    0 <= r2 < norm.rows && 0 <= c2 < norm.cols ==> #[trigger] norm.at(r2, c2)
                        == raw.oriented_at(plan.inv_lat, plan.inv_lon, r2, c2),
                r < 256,
                c <= 256,
                out@.len() == r * 256 + c,
                forall|r2: int, c2: int|
                    0 <= r2 < r && 0 <= c2 < 256 ==> #[trigger] out@[r2 * 256 + c2] == cell_spec(
                        *plan,
                        *raw,
                        r2,
                        c2,
                    ),
                forall|c2: int|
                    0 <= c2 < c ==> #[trigger] out@[r * 256 + c2] == cell_spec(
                        *plan,
                        *raw,
                        r as int,
                        c2,
                    ),
            decreases 256 - c,
        {
            let inside: bool = c >= plan.rect.px && c < plan.rect.px + plan.rect.x_len && r
                + plan.rect.py + plan.rect.y_len >= 256 && r + plan.rect.py < 256;
            if inside {
                let yi: usize = 255 - (plan.rect.py + r);
                let xi: usize = c - plan.rect.px;
                let sr: usize = sample_idx(yi, rows, plan.rect.y_len);
                let sc: usize = sample_idx(xi, cols, plan.rect.x_len);
                out.push(Some(norm.value_at(sr, sc)));
            } else {
                out.push(Option::None);
            }
            c = c + 1;
        }
        proof {
            assert(r * 256 + 256 == (r + 1) * 256);
        }
        r = r + 1;
    }
    Ok(out)
}

/// The answer of the planning stage: either the tile lies entirely
/// outside the dataset's coverage (or the intersection selects nothing
/// at all), or a plan saying what to fetch and where it lands.
#[derive(Debug)]
pub enum TileQuery {
    NoTile,
    Fetch(TilePlan),
}

/// Decides a tile request against a dataset: derives the tile's
/// geographic bounds, intersects them with the dataset's bounds, and
/// turns a non-empty intersection into index ranges and a pixel
/// placement.  `NoTile` exactly when the bounds are disjoint or the
/// intersection selects no sample and no pixel; otherwise the plan's
/// every field is pinned: ranges by [`range_spec`] on the
/// intersection, placement by [`px_floor`] and [`px_round_len`] on the
/// intersection shifted to the tile origin.
pub fn plan_tile(dset: &Dataset, tile: &TileCoord) -> (r: TileQuery)
    requires
        dset.wf(),
        tile.zoom <= 31,
        tile.x as int + 1 <= pow2(tile.zoom as nat),
        tile.y as int + 1 <= pow2(tile.zoom as nat),
    ensures
        ({
            let tb = tile_bounds_spec(*tile);
            let db = dset.bounds_spec();
            let ib = db.intersection(tb);
            let span_x = tb.max_x - tb.min_x;
            let span_y = tb.max_y - tb.min_y;
            let lat_pair = range_spec(dset.lats@, dset.inv_lat, ib.min_y, ib.max_y);
            let lon_pair = range_spec(dset.lons@, dset.inv_lon, ib.min_x, ib.max_x);
            let xl = px_round_len(ib.min_x - tb.min_x, ib.max_x - tb.min_x, span_x);
            let yl = px_round_len(ib.min_y - tb.min_y, ib.max_y - tb.min_y, span_y);
            &&& (db.disjoint(tb) ==> r is NoTile)
            &&& (r matches TileQuery::Fetch(p) ==> {
                &&& !db.disjoint(tb)
                &&& ib.wf()
                &&& span_x >= 1
                &&& span_y >= 1
                &&& (p.ranges.lat_start as int, p.ranges.lat_end as int) == lat_pair
                &&& (p.ranges.lon_start as int, p.ranges.lon_end as int) == lon_pair
                &&& p.rect.px as int == px_floor(ib.min_x - tb.min_x, span_x)
                &&& p.rect.py as int == px_floor(ib.min_y - tb.min_y, span_y)
                &&& p.rect.x_len as int == xl
                &&& p.rect.y_len as int == yl
                &&& p.inv_lat == dset.inv_lat
                &&& p.inv_lon == dset.inv_lon
                &&& p.wf()
            })
            &&& ((!db.disjoint(tb) && span_x >= 1 && span_y >= 1 && ib.wf() && lat_pair.0
                < lat_pair.1 && lon_pair.0 < lon_pair.1 && xl >= 1 && yl >= 1) ==> r is Fetch)
        }),
{
    let tb: Bounds = from_tile_coord_to_lat_lng_bounds(tile);
    let db: Bounds = dset.get_bounds();
    let ib: Bounds = match db.intersect(&tb) {
        Option::None => {
            return TileQuery::NoTile;
        },
        Some(b) => b,
    };
    if ib.min_x > ib.max_x || ib.min_y > ib.max_y {
        return TileQuery::NoTile;
    }
    let span_x: i64 = tb.max_x - tb.min_x;
    let span_y: i64 = tb.max_y - tb.min_y;
    if span_x < 1 || span_y < 1 {
        return TileQuery::NoTile;
    }
    let rel: Bounds = ib.xy_shift(-tb.min_x, -tb.min_y);
    let rect: PixelRect = pixel_extent(&rel, span_x, span_y);
    let ranges: AxisRanges = dset.index_ranges(&ib);
    if rect.x_len == 0 || rect.y_len == 0 {
        return TileQuery::NoTile;
    }
    if ranges.lat_start == ranges.lat_end || ranges.lon_start == ranges.lon_end {
        return TileQuery::NoTile;
    }
    TileQuery::Fetch(
        TilePlan { ranges, rect, inv_lat: dset.inv_lat, inv_lon: dset.inv_lon },
    )
}

/// Inside one rendered tile, latitude strictly descends with the
/// output row index: of two filled cells of the same column, the one
/// in the smaller (higher) row samples a normalized source row at
/// least as far north, and its pixel offset inside the placement is
/// strictly larger.  The normalized source grid is in ascending
/// latitude order, so a larger source row index is a more northern
/// sample.
pub proof fn lemma_row_flip(plan: TilePlan, raw: Grid, r1: int, r2: int, c: int)
    requires
        plan.wf(),
        256 - plan.rect.py - plan.rect.y_len <= r1 < r2 < 256 - plan.rect.py,
        plan.rect.px <= c < plan.rect.px + plan.rect.x_len,
        raw.rows == plan.rows_spec(),
    ensures
        255 - plan.rect.py - r1 > 255 - plan.rect.py - r2,
        ((255 - plan.rect.py - r1) * plan.rows_spec()) / (plan.rect.y_len as int) >= ((255
            - plan.rect.py - r2) * plan.rows_spec()) / (plan.rect.y_len as int),
        cell_spec(plan, raw, r1, c) is Some,
        cell_spec(plan, raw, r2, c) is Some,
{
    let yi1 = 255 - plan.rect.py - r1;
    let yi2 = 255 - plan.rect.py - r2;
    lemma_mul_inequality(yi2, yi1, plan.rows_spec());
    vstd::arithmetic::div_mod::lemma_div_is_ordered(
        yi2 * plan.rows_spec(),
        yi1 * plan.rows_spec(),
        plan.rect.y_len as int,
    );
}

} // verus!
