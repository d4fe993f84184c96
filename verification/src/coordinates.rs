//! Web Mercator coordinate transforms.
//!
//! Three coordinate spaces: geographic latitude/longitude in
//! nanodegrees, an abstract world-pixel space of `[0, 256]` pixels held
//! in nanopixels, and integer tile addresses `(x, y, zoom)` in the
//! standard quad-tree scheme.  The transforms follow the spherical
//! Web Mercator formulas, evaluated in exact fixed-point integer
//! arithmetic through the kernels of [`crate::fixmath`]; each
//! function's contract states the computed value exactly as the
//! spec-level mirror of the same integer steps.

use vstd::prelude::*;

use vstd::arithmetic::div_mod::lemma_div_pos_is_pos;
use vstd::arithmetic::mul::lemma_mul_inequality;
use vstd::arithmetic::power2::lemma2_to64;
use vstd::arithmetic::power2::lemma_pow2_strictly_increases;
use vstd::arithmetic::power2::pow2;
use vstd::bits::lemma_u64_shl_is_mul;

use crate::fixmath::atan_le1_fx;
use crate::fixmath::atan_le1_fx_spec;
use crate::fixmath::atanh_fx;
use crate::fixmath::atanh_fx_spec;
use crate::fixmath::expneg_fx;
use crate::fixmath::expneg_fx_spec;
use crate::fixmath::lemma_round_div_bounds;
use crate::fixmath::lemma_round_div_ordered;
use crate::fixmath::round_div_128;
use crate::fixmath::round_div_spec;
use crate::fixmath::sin_fx;
use crate::fixmath::sin_fx_spec;
use crate::fixmath::FX;
use crate::fixmath::HALF_PI_FX;
use crate::fixmath::PI_FX;

use crate::bounds::Bounds;

verus! {

/// Largest latitude magnitude the transforms accept, in nanodegrees:
/// 89 degrees, comfortably past the Web Mercator square's edge near
/// 85.05 degrees.
pub const LAT_LIMIT: i64 = 89_000_000_000;

/// Largest longitude magnitude, in nanodegrees: 180 degrees.
pub const LNG_LIMIT: i64 = 180_000_000_000;

/// The world-pixel space spans `[0, PX_SPAN]` nanopixels: 256 pixels.
pub const PX_SPAN: i64 = 256_000_000_000;

/// Half of [`PX_SPAN`]: the equator's pixel ordinate.
pub const HALF_PX_SPAN: i64 = 128_000_000_000;

/// An integer tile address in the standard quad-tree scheme.
#[derive(Clone, Copy, PartialEq, Eq, Structural, Debug)]
pub struct TileCoord {
    pub x: u32,
    pub y: u32,
    pub zoom: u8,
}

impl TileCoord {
    pub fn new(x: u32, y: u32, zoom: u8) -> (r: TileCoord)
        ensures
            r == (TileCoord { x, y, zoom }),
    {
        TileCoord { x, y, zoom }
    }

    pub fn x(&self) -> (r: u32)
        ensures
            r == self.x,
    {
        self.x
    }

    pub fn y(&self) -> (r: u32)
        ensures
            r == self.y,
    {
        self.y
    }

    pub fn zoom(&self) -> (r: u8)
        ensures
            r == self.zoom,
    {
        self.zoom
    }
}

/// A point of the world-pixel space, in nanopixels.
#[derive(Clone, Copy, PartialEq, Eq, Structural, Debug)]
pub struct Point {
    pub x: i64,
    pub y: i64,
}

impl Point {
    pub fn new(x: i64, y: i64) -> (r: Point)
        ensures
            r == (Point { x, y }),
    {
        Point { x, y }
    }

    pub fn x(&self) -> (r: i64)
        ensures
            r == self.x,
    {
        self.x
    }

    pub fn y(&self) -> (r: i64)
        ensures
            r == self.y,
    {
        self.y
    }
}

/// A geographic position, in nanodegrees.
#[derive(Clone, Copy, PartialEq, Eq, Structural, Debug)]
pub struct LatLng {
    pub lat: i64,
    pub lng: i64,
}

impl LatLng {
    pub fn new(lat: i64, lng: i64) -> (r: LatLng)
        ensures
            r == (LatLng { lat, lng }),
    {
        LatLng { lat, lng }
    }

    pub fn lat(&self) -> (r: i64)
        ensures
            r == self.lat,
    {
        self.lat
    }

    pub fn lng(&self) -> (r: i64)
        ensures
            r == self.lng,
    {
        self.lng
    }
}

/// Pixel abscissa of a longitude: `256 * (lng / 360 + 1/2)` pixels,
/// i.e. `32 * (lng + 180) / 45` in nano units, rounded to nearest.
pub open spec fn point_x_spec(lng: int) -> int {
    round_div_spec(32 * (lng + 180_000_000_000), 45)
}

/// The Mercator ordinate `atanh(sin(lat))` of a non-negative latitude
/// magnitude (nanodegrees), at fixed-point scale [`FX`].
pub open spec fn mercator_t_spec(alat: int) -> int {
    atanh_fx_spec(sin_fx_spec(round_div_spec(alat * PI_FX as int, 180_000_000_000)))
}

/// Pixel ordinate of a latitude: `128 * (1 - atanh(sin(lat)) / pi)`
/// pixels in nano units; the equator maps to [`HALF_PX_SPAN`], northern
/// latitudes below it, southern above.
pub open spec fn point_y_spec(lat: int) -> int {
    if lat >= 0 {
        128_000_000_000 - round_div_spec(128_000_000_000 * mercator_t_spec(lat), PI_FX as int)
    } else {
        128_000_000_000 + round_div_spec(128_000_000_000 * mercator_t_spec(-lat), PI_FX as int)
    }
}

/// Geographic to world-pixel: exactly [`point_x_spec`] and
/// [`point_y_spec`].
pub fn from_lat_lng_to_point(lat_lng: &LatLng) -> (p: Point)
    requires
        -LAT_LIMIT <= lat_lng.lat <= LAT_LIMIT,
        -LNG_LIMIT <= lat_lng.lng <= LNG_LIMIT,
    ensures
        p.x == point_x_spec(lat_lng.lng as int),
        p.y == point_y_spec(lat_lng.lat as int),
        0 <= p.x <= PX_SPAN,
        -1_500_000_000_000_000 <= p.y <= 1_500_000_000_000_000,
{
    let xs: i64 = lat_lng.lng + 180_000_000_000;
    proof {
        lemma_round_div_bounds(32 * xs as int, 45, 32 * 360_000_000_000int, 256_000_000_000int);
    }
    let x: i64 = round_div_128((xs as u128) * 32, 45) as i64;
    let alat: i64 = if lat_lng.lat >= 0 {
        lat_lng.lat
    } else {
        -lat_lng.lat
    };
    proof {
        lemma_mul_inequality(alat as int, 89_000_000_000, PI_FX as int);
        lemma_round_div_bounds(
            alat as int * PI_FX as int,
            180_000_000_000,
            89_000_000_000 * PI_FX as int,
            1_600_000_000_000,
        );
    }
    let phi: u64 = round_div_128((alat as u128) * (PI_FX as u128), 180_000_000_000);
    let s: u64 = sin_fx(phi);
    let t: u64 = atanh_fx(s);
    proof {
        lemma_mul_inequality(t as int, 30_000_000_000_000_000, 128_000_000_000);
        lemma_round_div_bounds(
            128_000_000_000 * t as int,
            PI_FX as int,
            128_000_000_000 * 30_000_000_000_000_000int,
            1_300_000_000_000_000int,
        );
    }
    let q: i64 = round_div_128(128_000_000_000u128 * (t as u128), PI_FX as u128) as i64;
    let y: i64 = if lat_lng.lat >= 0 {
        HALF_PX_SPAN - q
    } else {
        HALF_PX_SPAN + q
    };
    Point { x, y }
}

/// Longitude of a pixel abscissa: `(x / 256 - 1/2) * 360` degrees,
/// i.e. `45 * x / 32 - 180` in nano units, rounded to nearest.
pub open spec fn lng_spec(x: int) -> int {
    round_div_spec(45 * x, 32) - 180_000_000_000
}

/// Latitude magnitude of a pixel offset `ad` from the equator line
/// toward the top: `m = ad * pi / 128`, then
/// `lat = (atan(e^m) / pi - 1/4) * 360` with
/// `atan(e^m) = pi/2 - atan(e^{-m})`.
pub open spec fn lat_half_spec(ad: int) -> int {
    let am = round_div_spec(ad * PI_FX as int, 128_000_000_000);
    let q = expneg_fx_spec(am);
    let a = HALF_PI_FX as int - atan_le1_fx_spec(q);
    round_div_spec(360_000_000_000 * a, PI_FX as int) - 90_000_000_000
}

/// Latitude of a pixel ordinate: the half-plane split of
/// [`lat_half_spec`], northern for `y` above the equator line.
pub open spec fn lat_spec(y: int) -> int {
    if y <= 128_000_000_000 {
        lat_half_spec(128_000_000_000 - y)
    } else {
        -lat_half_spec(y - 128_000_000_000)
    }
}

/// World-pixel to geographic: exactly [`lat_spec`] and [`lng_spec`] —
/// the inverse construction of [`from_lat_lng_to_point`].
pub fn from_point_to_lat_lng(point: &Point) -> (l: LatLng)
    requires
        0 <= point.x <= PX_SPAN,
        0 <= point.y <= PX_SPAN,
    ensures
        l.lng == lng_spec(point.x as int),
        l.lat == lat_spec(point.y as int),
        -LNG_LIMIT <= l.lng <= LNG_LIMIT,
        -90_000_000_000 <= l.lat <= 90_000_000_000,
{
    proof {
        lemma_round_div_bounds(
            45 * point.x as int,
            32,
            45 * 256_000_000_000int,
            360_000_000_000int,
        );
    }
    let lng: i64 = round_div_128((point.x as u128) * 45, 32) as i64 - 180_000_000_000;
    let ad: i64 = if point.y <= HALF_PX_SPAN {
        HALF_PX_SPAN - point.y
    } else {
        point.y - HALF_PX_SPAN
    };
    proof {
        lemma_mul_inequality(ad as int, 128_000_000_000, PI_FX as int);
        lemma_round_div_bounds(
            ad as int * PI_FX as int,
            128_000_000_000,
            128_000_000_000 * PI_FX as int,
            PI_FX as int,
        );
    }
    let am: u64 = round_div_128((ad as u128) * (PI_FX as u128), 128_000_000_000);
    let q: u64 = expneg_fx(am);
    let at: u64 = atan_le1_fx(q);
    let a: u64 = HALF_PI_FX - at;
    proof {
        lemma_mul_inequality(a as int, HALF_PI_FX as int, 360_000_000_000);
        lemma_round_div_bounds(
            360_000_000_000 * a as int,
            PI_FX as int,
            360_000_000_000 * HALF_PI_FX as int,
            180_000_000_000,
        );
    }
    let lm: i64 = round_div_128(360_000_000_000u128 * (a as u128), PI_FX as u128) as i64;
    let lat_mag: i64 = lm - 90_000_000_000;
    let lat: i64 = if point.y <= HALF_PX_SPAN {
        lat_mag
    } else {
        -lat_mag
    };
    LatLng { lat, lng }
}

/// One tile-address axis: clamp the pixel coordinate below at zero (a
/// saturating conversion, as a float-to-unsigned cast would do), take
/// `floor(v * 2^zoom / 256)` in nano units, and saturate into the
/// 32-bit address range.
pub open spec fn tile_axis_spec(v: int, zoom: nat) -> int {
    let c = if v < 0 {
        0
    } else {
        v
    };
    let t = (c * pow2(zoom)) / 256_000_000_000;
    if t > u32::MAX {
        u32::MAX as int
    } else {
        t
    }
}

/// Geographic to tile address at a zoom level: through the pixel point,
/// then [`tile_axis_spec`] on each axis.
pub fn from_lat_lng_to_tile_coord(lat_lng: &LatLng, zoom: u8) -> (r: TileCoord)
    requires
        zoom <= 31,
        -LAT_LIMIT <= lat_lng.lat <= LAT_LIMIT,
        -LNG_LIMIT <= lat_lng.lng <= LNG_LIMIT,
    ensures
        r.x as int == tile_axis_spec(point_x_spec(lat_lng.lng as int), zoom as nat),
        r.y as int == tile_axis_spec(point_y_spec(lat_lng.lat as int), zoom as nat),
        r.zoom == zoom,
{
    let point: Point = from_lat_lng_to_point(lat_lng);
    let scale: u64 = tile_scale(zoom);
    let tx: u32 = tile_axis(point.x, scale);
    let ty: u32 = tile_axis(point.y, scale);
    TileCoord { x: tx, y: ty, zoom }
}

/// `2^zoom` as an integer scale factor.
fn tile_scale(zoom: u8) -> (r: u64)
    requires
        zoom <= 31,
    ensures
        r as int == pow2(zoom as nat),
        1 <= r <= 0x8000_0000,
{
    proof {
        lemma2_to64();
        if zoom < 31 {
            lemma_pow2_strictly_increases(zoom as nat, 31);
        }
        lemma_u64_shl_is_mul(1u64, zoom as u64);
    }
    1u64 << (zoom as u64)
}

/// One axis of [`tile_axis_spec`], exactly.
fn tile_axis(v: i64, scale: u64) -> (r: u32)
    requires
        1 <= scale <= 0x8000_0000,
        -2_000_000_000_000_000 <= v <= 2_000_000_000_000_000,
    ensures
        r as int == {
            let c = if v < 0 {
                0int
            } else {
                v as int
            };
            let t = (c * scale) / 256_000_000_000;
            if t > u32::MAX {
                u32::MAX as int
            } else {
                t
            }
        },
{
    let c: u64 = if v < 0 {
        0
    } else {
        v as u64
    };
    proof {
        lemma_div_pos_is_pos(c as int * scale as int, 256_000_000_000);
        assert((c as u128) * (scale as u128) == (c as int * scale as int) as u128)
            by (nonlinear_arith)
            requires
                c <= u64::MAX,
                scale <= u64::MAX,
        ;
    }
    let t: u128 = ((c as u128) * (scale as u128)) / 256_000_000_000;
    if t > u32::MAX as u128 {
        u32::MAX
    } else {
        t as u32
    }
}

/// One pixel-space corner ordinate of a tile: `k * 256 / 2^zoom`
/// pixels in nano units, rounded to nearest.
pub open spec fn corner_spec(k: int, zoom: nat) -> int {
    round_div_spec(k * 256_000_000_000, pow2(zoom) as int)
}

/// The geographic rectangle a tile covers.  Longitude follows the
/// pixel abscissa directly; for latitude the vertical axis flips:
/// pixel ordinates grow downward while latitude grows upward, so the
/// tile's top edge (`y`) gives `max_y` and its bottom edge (`y + 1`)
/// gives `min_y`.
pub open spec fn tile_bounds_spec(tc: TileCoord) -> Bounds {
    let zoom = tc.zoom as nat;
    let x0 = corner_spec(tc.x as int, zoom);
    let x1 = corner_spec(tc.x as int + 1, zoom);
    let y0 = corner_spec(tc.y as int, zoom);
    let y1 = corner_spec(tc.y as int + 1, zoom);
    Bounds {
        min_x: lng_spec(x0) as i64,
        min_y: lat_spec(y1) as i64,
        max_x: lng_spec(x1) as i64,
        max_y: lat_spec(y0) as i64,
    }
}

/// Tile address to its geographic bounds: exactly
/// [`tile_bounds_spec`], with the stated coordinate ranges and the
/// longitude pair properly ordered.
#[verifier::rlimit(60)]
pub fn from_tile_coord_to_lat_lng_bounds(tile_coord: &TileCoord) -> (r: Bounds)
    requires
        tile_coord.zoom <= 31,
        tile_coord.x as int + 1 <= pow2(tile_coord.zoom as nat),
        tile_coord.y as int + 1 <= pow2(tile_coord.zoom as nat),
    ensures
        r == tile_bounds_spec(*tile_coord),
        r.min_x <= r.max_x,
        -LNG_LIMIT <= r.min_x,
        r.max_x <= LNG_LIMIT,
        -90_000_000_000 <= r.min_y <= 90_000_000_000,
        -90_000_000_000 <= r.max_y <= 90_000_000_000,
{
    let scale: u64 = tile_scale(tile_coord.zoom);
    let x0: i64 = tile_corner(tile_coord.x, scale);
    let x1: i64 = tile_corner(tile_coord.x + 1, scale);
    let y0: i64 = tile_corner(tile_coord.y, scale);
    let y1: i64 = tile_corner(tile_coord.y + 1, scale);
    let min_point: Point = Point { x: x0, y: y0 };
    let max_point: Point = Point { x: x1, y: y1 };
    let min_lat_lng: LatLng = from_point_to_lat_lng(&min_point);
    let max_lat_lng: LatLng = from_point_to_lat_lng(&max_point);
    proof {
        lemma_round_div_ordered(
            tile_coord.x as int * 256_000_000_000,
            (tile_coord.x as int + 1) * 256_000_000_000,
            scale as int,
        );
        lemma_round_div_ordered(45 * x0 as int, 45 * x1 as int, 32);
    }
    Bounds {
        min_x: min_lat_lng.lng,
        min_y: max_lat_lng.lat,
        max_x: max_lat_lng.lng,
        max_y: min_lat_lng.lat,
    }
}

/// One pixel-space corner of a tile edge, exactly [`corner_spec`];
/// within the pixel space for an in-range tile address.
fn tile_corner(k: u32, scale: u64) -> (r: i64)
    requires
        1 <= scale <= 0x8000_0000,
        k <= scale,
    ensures
        r as int == round_div_spec(k as int * 256_000_000_000, scale as int),
        0 <= r <= PX_SPAN,
{
    proof {
        lemma_mul_inequality(k as int, scale as int, 256_000_000_000);
        assert(2 * (scale as int * 256_000_000_000) + scale < 2 * scale * (256_000_000_000 + 1))
            by (nonlinear_arith)
            requires
                scale >= 1,
        ;
        lemma_round_div_bounds(
            k as int * 256_000_000_000,
            scale as int,
            scale as int * 256_000_000_000,
            256_000_000_000,
        );
        assert((k as u128) * 256_000_000_000 == (k as int * 256_000_000_000) as u128)
            by (nonlinear_arith)
            requires
                k <= u32::MAX,
        ;
    }
    round_div_128((k as u128) * 256_000_000_000, scale as u128) as i64
}

} // verus!
