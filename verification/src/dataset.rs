//! Dataset accessor: coordinate axes, orientation, bounds and index
//! ranges.
//!
//! A [`Dataset`] models a gridded geographic file: the two coordinate
//! axes read fully into memory (in nanodegrees, in on-disk storage
//! order, each independently monotonic but possibly ascending or
//! descending) and the derived orientation flags.  Opening the file and
//! reading the axes is I/O and happens outside the library; the library
//! is handed the axis samples as plain integers and does everything
//! that can be checked: validation, bounds, nearest-sample lookup and
//! the conversion of a geographic rectangle into an ascending index
//! range on each axis.

use vstd::prelude::*;

use crate::bounds::Bounds;
use crate::TileError;

verus! {

/// Largest coordinate magnitude (in nanodegrees) an axis sample or a
/// query value may have: 360 degrees, which also admits datasets with
/// longitudes stored in `0..360` form.
pub const GEO_LIMIT: i64 = 360_000_000_000;

/// `|a - b|` as a mathematical integer.
pub open spec fn abs_diff(a: int, b: int) -> int {
    if a >= b {
        a - b
    } else {
        b - a
    }
}

/// Every sample of the axis lies within [`GEO_LIMIT`].
pub open spec fn axis_in_range(axis: Seq<i64>) -> bool {
    forall|i: int| 0 <= i < axis.len() ==> -GEO_LIMIT <= #[trigger] axis[i] <= GEO_LIMIT
}

/// `r` is the index of the sample closest to `v`, and the earliest such
/// index: every sample is at least as far from `v`, and every sample
/// before `r` is strictly farther.
pub open spec fn is_nearest(axis: Seq<i64>, v: i64, r: int) -> bool {
    &&& 0 <= r < axis.len()
    &&& forall|j: int|
        0 <= j < axis.len() ==> abs_diff(axis[r] as int, v as int) <= abs_diff(
            #[trigger] axis[j] as int,
            v as int,
        )
    &&& forall|j: int|
        0 <= j < r ==> abs_diff(#[trigger] axis[j] as int, v as int) > abs_diff(
            axis[r] as int,
            v as int,
        )
}

/// At most one index can be nearest-and-earliest.
pub proof fn lemma_is_nearest_unique(axis: Seq<i64>, v: i64, r1: int, r2: int)
    requires
        is_nearest(axis, v, r1),
        is_nearest(axis, v, r2),
    ensures
        r1 == r2,
{
    if r1 < r2 {
        assert(abs_diff(axis[r1] as int, v as int) > abs_diff(axis[r2] as int, v as int));
        assert(abs_diff(axis[r2] as int, v as int) >= abs_diff(axis[r1] as int, v as int));
    }
    if r2 < r1 {
        assert(abs_diff(axis[r2] as int, v as int) > abs_diff(axis[r1] as int, v as int));
        assert(abs_diff(axis[r1] as int, v as int) >= abs_diff(axis[r2] as int, v as int));
    }
}

/// The one index satisfying [`is_nearest`], where it exists.
pub open spec fn nearest_idx(axis: Seq<i64>, v: i64) -> int {
    choose|r: int| is_nearest(axis, v, r)
}

/// Index of the axis sample closest to `value`; on ties the lower index
/// wins.  Holds for any axis; on a monotonic ascending axis this is the
/// index minimizing `|axis[i] - value|` with the earliest-encountered
/// tie-break.
pub fn nearest_index(axis: &Vec<i64>, value: i64) -> (r: usize)
    requires
        axis@.len() >= 1,
        axis_in_range(axis@),
        -GEO_LIMIT <= value <= GEO_LIMIT,
    ensures
        is_nearest(axis@, value, r as int),
        r as int == nearest_idx(axis@, value),
{
    let mut best: usize = 0;
    let first: i64 = axis[0];
    let mut best_d: i64 = if first >= value {
        first - value
    } else {
        value - first
    };
    let mut i: usize = 1;
    while i < axis.len()
        invariant
            1 <= i <= axis@.len(),
            best < i,
            axis_in_range(axis@),
            -GEO_LIMIT <= value <= GEO_LIMIT,
            best_d == abs_diff(axis@[best as int] as int, value as int),
            forall|j: int|
                0 <= j < i ==> best_d <= abs_diff(#[trigger] axis@[j] as int, value as int),
            forall|j: int|
                0 <= j < best ==> best_d < abs_diff(#[trigger] axis@[j] as int, value as int),
        decreases axis@.len() - i,
    {
        let a: i64 = axis[i];
        let d: i64 = if a >= value {
            a - value
        } else {
            value - a
        };
        if d < best_d {
            best = i;
            best_d = d;
        }
        i = i + 1;
    }
    proof {
        assert(is_nearest(axis@, value, best as int));
        let w = nearest_idx(axis@, value);
        assert(is_nearest(axis@, value, w));
        lemma_is_nearest_unique(axis@, value, best as int, w);
    }
    best
}

/// A gridded dataset's in-memory model: the two coordinate axes in
/// storage order and the orientation flag of each (`true` means the
/// axis is stored descending).
#[derive(Debug)]
pub struct Dataset {
    pub lats: Vec<i64>,
    pub lons: Vec<i64>,
    pub inv_lat: bool,
    pub inv_lon: bool,
}

impl Dataset {
    /// Both axes have at least two samples in range, and each flag
    /// records whether its axis starts descending.
    pub open spec fn wf(self) -> bool {
        &&& self.lats@.len() >= 2
        &&& self.lons@.len() >= 2
        &&& axis_in_range(self.lats@)
        &&& axis_in_range(self.lons@)
        &&& self.inv_lat == (self.lats@[0] > self.lats@[1])
        &&& self.inv_lon == (self.lons@[0] > self.lons@[1])
    }

    /// The geographic rectangle spanned by the axes: first/last sample
    /// of each axis, the ends swapped according to the orientation
    /// flags so that, for monotonic axes, `min <= max` holds
    /// irrespective of on-disk storage order.
    pub open spec fn bounds_spec(self) -> Bounds {
        Bounds {
            min_x: if self.inv_lon {
                self.lons@[self.lons@.len() - 1]
            } else {
                self.lons@[0]
            },
            max_x: if self.inv_lon {
                self.lons@[0]
            } else {
                self.lons@[self.lons@.len() - 1]
            },
            min_y: if self.inv_lat {
                self.lats@[self.lats@.len() - 1]
            } else {
                self.lats@[0]
            },
            max_y: if self.inv_lat {
                self.lats@[0]
            } else {
                self.lats@[self.lats@.len() - 1]
            },
        }
    }

    /// Builds the model from the axis samples as read from the file,
    /// in storage order.  Succeeds exactly when both axes have at
    /// least two samples and every sample is within [`GEO_LIMIT`];
    /// anything else is reported as a schema error.  Monotonicity is a
    /// precondition of the surrounding design and is not validated.
    pub fn new(lats: Vec<i64>, lons: Vec<i64>) -> (r: Result<Dataset, TileError>)
        ensures
            r is Ok <==> (lats@.len() >= 2 && lons@.len() >= 2 && axis_in_range(lats@)
                && axis_in_range(lons@)),
            r matches Ok(d) ==> {
                &&& d.lats@ == lats@
                &&& d.lons@ == lons@
                &&& d.wf()
            },
            r is Err ==> r == Err::<Dataset, TileError>(TileError::Schema),
    {
        if !axis_ok(&lats) || !axis_ok(&lons) {
            return Err(TileError::Schema);
        }
        let inv_lat: bool = lats[0] > lats[1];
        let inv_lon: bool = lons[0] > lons[1];
        Ok(Dataset { lats, lons, inv_lat, inv_lon })
    }

    pub fn lats(&self) -> (r: &Vec<i64>)
        ensures
            r@ == self.lats@,
    {
        &self.lats
    }

    pub fn lons(&self) -> (r: &Vec<i64>)
        ensures
            r@ == self.lons@,
    {
        &self.lons
    }

    /// The dataset's geographic bounds, exactly as [`Dataset::bounds_spec`]
    /// derives them from the axis ends and the orientation flags.
    pub fn get_bounds(&self) -> (r: Bounds)
        requires
            self.wf(),
        ensures
            r == self.bounds_spec(),
    {
        let nlon: usize = self.lons.len();
        let nlat: usize = self.lats.len();
        let (min_x, max_x): (i64, i64) = if self.inv_lon {
            (self.lons[nlon - 1], self.lons[0])
        } else {
            (self.lons[0], self.lons[nlon - 1])
        };
        let (min_y, max_y): (i64, i64) = if self.inv_lat {
            (self.lats[nlat - 1], self.lats[0])
        } else {
            (self.lats[0], self.lats[nlat - 1])
        };
        Bounds { min_x, min_y, max_x, max_y }
    }
}

/// The axis has at least two samples, all within [`GEO_LIMIT`].
fn axis_ok(axis: &Vec<i64>) -> (b: bool)
    ensures
        b == (axis@.len() >= 2 && axis_in_range(axis@)),
{
    if axis.len() < 2 {
        return false;
    }
    let mut i: usize = 0;
    while i < axis.len()
        invariant
            0 <= i <= axis@.len(),
            forall|j: int| 0 <= j < i ==> -GEO_LIMIT <= #[trigger] axis@[j] <= GEO_LIMIT,
        decreases axis@.len() - i,
    {
        let a: i64 = axis[i];
        if a < -GEO_LIMIT || a > GEO_LIMIT {
            return false;
        }
        i = i + 1;
    }
    true
}

/// Ascending, end-exclusive index ranges on each axis, ready for a
/// storage-order slice read `[lat_start..lat_end, lon_start..lon_end]`.
#[derive(Clone, Copy, PartialEq, Eq, Structural, Debug)]
pub struct AxisRanges {
    pub lat_start: usize,
    pub lat_end: usize,
    pub lon_start: usize,
    pub lon_end: usize,
}

/// The ascending index pair for one axis: the nearest sample of each of
/// the two bound values, the bound that maps to the start chosen by the
/// orientation flag, the pair ordered so the range is never reversed.
pub open spec fn range_spec(axis: Seq<i64>, inv: bool, vmin: i64, vmax: i64) -> (int, int) {
    let a = nearest_idx(
        axis,
        if inv {
            vmax
        } else {
            vmin
        },
    );
    let b = nearest_idx(
        axis,
        if inv {
            vmin
        } else {
            vmax
        },
    );
    (
        if a <= b {
            a
        } else {
            b
        },
        if a <= b {
            b
        } else {
            a
        },
    )
}

impl Dataset {
    /// Converts a geographic rectangle into the index range on each
    /// axis for the slice read, exactly as [`range_spec`] states:
    /// nearest samples of the rectangle's per-axis bounds, start/end
    /// chosen by orientation so the range is ascending.  The end index
    /// is exclusive.
    pub fn index_ranges(&self, b: &Bounds) -> (r: AxisRanges)
        requires
            self.wf(),
            -GEO_LIMIT <= b.min_x <= GEO_LIMIT,
            -GEO_LIMIT <= b.max_x <= GEO_LIMIT,
            -GEO_LIMIT <= b.min_y <= GEO_LIMIT,
            -GEO_LIMIT <= b.max_y <= GEO_LIMIT,
        ensures
            (r.lat_start as int, r.lat_end as int) == range_spec(
                self.lats@,
                self.inv_lat,
                b.min_y,
                b.max_y,
            ),
            (r.lon_start as int, r.lon_end as int) == range_spec(
                self.lons@,
                self.inv_lon,
                b.min_x,
                b.max_x,
            ),
            r.lat_start <= r.lat_end < self.lats@.len(),
            r.lon_start <= r.lon_end < self.lons@.len(),
    {
        let lat_a: usize = nearest_index(
            &self.lats,
            if self.inv_lat {
                b.max_y
            } else {
                b.min_y
            },
        );
        let lat_b: usize = nearest_index(
            &self.lats,
            if self.inv_lat {
                b.min_y
            } else {
                b.max_y
            },
        );
        let lon_a: usize = nearest_index(
            &self.lons,
            if self.inv_lon {
                b.max_x
            } else {
                b.min_x
            },
        );
        let lon_b: usize = nearest_index(
            &self.lons,
            if self.inv_lon {
                b.min_x
            } else {
                b.max_x
            },
        );
        let (lat_start, lat_end): (usize, usize) = if lat_a <= lat_b {
            (lat_a, lat_b)
        } else {
            (lat_b, lat_a)
        };
        let (lon_start, lon_end): (usize, usize) = if lon_a <= lon_b {
            (lon_a, lon_b)
        } else {
            (lon_b, lon_a)
        };
        AxisRanges { lat_start, lat_end, lon_start, lon_end }
    }
}

} // verus!
