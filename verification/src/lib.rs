//! Web-map ("slippy-map") raster tiles computed on demand from gridded
//! geographic datasets.
//!
//! Geographic coordinates are held in fixed-point integers (nanodegrees),
//! pixel-space coordinates in nanopixels, so that the bounds algebra, the
//! Web Mercator transforms, the axis indexing and the decimation loop are
//! all exact integer computations with proved contracts.  Reading the
//! dataset from disk and encoding the produced raster as an image are left
//! to the (unverified) program around this library, which hands plain
//! values in and takes plain values back.

use vstd::prelude::*;

pub mod bounds;
pub mod coordinates;
pub mod dataset;
pub mod fixmath;
pub mod tile;

verus! {

/// Side length, in pixels, of one output tile.
pub const TILE_SIZE: usize = 256;

/// Fixed-point scale for geographic degrees: one degree is
/// `NANO_PER_UNIT` nanodegrees.
pub const NANO_PER_UNIT: i64 = 1_000_000_000;

/// Failures of a tile computation.  `Open`: the file is missing,
/// unreadable or corrupt.  `Schema`: a named coordinate or data variable
/// is absent, or an axis is unusable.  `Io`: a slice read failed after a
/// successful open.  The non-error "no tile" outcome is represented
/// separately, never as an error.
#[derive(Clone, Copy, PartialEq, Eq, Structural, Debug)]
pub enum TileError {
    Open,
    Schema,
    Io,
}

} // verus!
