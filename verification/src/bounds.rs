//! Axis-aligned rectangle algebra.
//!
//! A `Bounds` is a rectangle given by its per-axis minima and maxima, in
//! whatever fixed-point unit the caller works in (nanodegrees for
//! geographic bounds).  The intended invariant `min <= max` on each axis
//! is the spec function [`Bounds::wf`]; callers supply pre-ordered values
//! (axis-orientation correction happens upstream, in the dataset
//! accessor).

use vstd::prelude::*;

verus! {

/// An axis-aligned rectangle; cheaply copyable value type.
#[derive(Clone, Copy, PartialEq, Eq, Structural, Debug)]
pub struct Bounds {
    pub min_x: i64,
    pub min_y: i64,
    pub max_x: i64,
    pub max_y: i64,
}

impl Bounds {
    /// The rectangle is properly ordered: `min <= max` on each axis.
    pub open spec fn wf(self) -> bool {
        self.min_x <= self.max_x && self.min_y <= self.max_y
    }

    /// The rectangles share no point on at least one axis.
    pub open spec fn disjoint(self, other: Bounds) -> bool {
        self.min_x > other.max_x || self.max_x < other.min_x || self.min_y > other.max_y
            || self.max_y < other.min_y
    }

    /// Per-axis `(max(mins), min(maxes))`: the common sub-rectangle of two
    /// overlapping rectangles.
    pub open spec fn intersection(self, other: Bounds) -> Bounds {
        Bounds {
            min_x: if self.min_x >= other.min_x {
                self.min_x
            } else {
                other.min_x
            },
            min_y: if self.min_y >= other.min_y {
                self.min_y
            } else {
                other.min_y
            },
            max_x: if self.max_x <= other.max_x {
                self.max_x
            } else {
                other.max_x
            },
            max_y: if self.max_y <= other.max_y {
                self.max_y
            } else {
                other.max_y
            },
        }
    }

    pub fn new(min_x: i64, min_y: i64, max_x: i64, max_y: i64) -> (r: Bounds)
        ensures
            r == (Bounds { min_x, min_y, max_x, max_y }),
    {
        Bounds { min_x, min_y, max_x, max_y }
    }

    pub fn min_x(&self) -> (r: i64)
        ensures
            r == self.min_x,
    {
        self.min_x
    }

    pub fn min_y(&self) -> (r: i64)
        ensures
            r == self.min_y,
    {
        self.min_y
    }

    pub fn max_x(&self) -> (r: i64)
        ensures
            r == self.max_x,
    {
        self.max_x
    }

    pub fn max_y(&self) -> (r: i64)
        ensures
            r == self.max_y,
    {
        self.max_y
    }

    /// `None` exactly when the rectangles are disjoint on at least one
    /// axis; otherwise the intersection, itself properly ordered whenever
    /// both inputs are.
    pub fn intersect(&self, other: &Bounds) -> (r: Option<Bounds>)
        ensures
            self.disjoint(*other) ==> r == Option::<Bounds>::None,
            !self.disjoint(*other) ==> r == Some(self.intersection(*other)),
            self.wf() && other.wf() && !self.disjoint(*other) ==> self.intersection(
                *other,
            ).wf(),
    {
        if self.min_x > other.max_x || self.max_x < other.min_x || self.min_y > other.max_y
            || self.max_y < other.min_y {
            return None;
        }
        let min_x: i64 = if self.min_x >= other.min_x {
            self.min_x
        } else {
            other.min_x
        };
        let min_y: i64 = if self.min_y >= other.min_y {
            self.min_y
        } else {
            other.min_y
        };
        let max_x: i64 = if self.max_x <= other.max_x {
            self.max_x
        } else {
            other.max_x
        };
        let max_y: i64 = if self.max_y <= other.max_y {
            self.max_y
        } else {
            other.max_y
        };
        Some(Bounds { min_x, min_y, max_x, max_y })
    }

    /// Translate every corner coordinate: a pure coordinate-system
    /// conversion, not a geometric transform about a center.
    pub fn xy_shift(&self, dx: i64, dy: i64) -> (r: Bounds)
        requires
            i64::MIN <= self.min_x + dx <= i64::MAX,
            i64::MIN <= self.max_x + dx <= i64::MAX,
            i64::MIN <= self.min_y + dy <= i64::MAX,
            i64::MIN <= self.max_y + dy <= i64::MAX,
        ensures
            r.min_x == self.min_x + dx,
            r.max_x == self.max_x + dx,
            r.min_y == self.min_y + dy,
            r.max_y == self.max_y + dy,
    {
        Bounds {
            min_x: self.min_x + dx,
            min_y: self.min_y + dy,
            max_x: self.max_x + dx,
            max_y: self.max_y + dy,
        }
    }
}

/// Intersection is commutative: the disjointness test and the intersection
/// rectangle do not depend on the order of the arguments, and the
/// intersection of two overlapping properly-ordered rectangles is itself
/// properly ordered.
pub proof fn lemma_intersect_commutative(a: Bounds, b: Bounds)
    ensures
        a.disjoint(b) == b.disjoint(a),
        a.intersection(b) == b.intersection(a),
        a.wf() && b.wf() && !a.disjoint(b) ==> a.intersection(b).wf(),
{
}

} // verus!
