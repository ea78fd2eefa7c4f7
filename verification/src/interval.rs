//! A closed numeric range over fixed-point scalars, used both as the
//! valid-hit-distance window of intersection queries and as the output
//! color range.

use vstd::prelude::*;

verus! {

#[derive(Clone, Copy, Debug, PartialEq, Eq, Structural)]
pub struct Interval {
    pub min: i64,
    pub max: i64,
}

impl Interval {
    pub fn new(min: i64, max: i64) -> (r: Self)
        ensures
            r == (Interval { min, max }),
    {
        Interval { min, max }
    }

    /// Inclusive containment.
    pub fn contains(&self, value: i64) -> (r: bool)
        ensures
            r == (self.min <= value && value <= self.max),
    {
        self.min <= value && value <= self.max
    }

    /// Exclusive containment.
    pub fn surrounds(&self, element: i64) -> (r: bool)
        ensures
            r == spec_surrounds(*self, element as int),
    {
        self.min < element && element < self.max
    }

    /// Whether `other` lies strictly inside this range.
    pub fn surrounds_range(&self, other: &Self) -> (r: bool)
        ensures
            r == (self.min < other.min && other.max < self.max),
    {
        self.min < other.min && other.max < self.max
    }

    /// Saturating clamp of `value` into the range.
    pub fn clamp(&self, value: i64) -> (r: i64)
        ensures
            r as int == spec_clamp(*self, value as int),
    {
        if value < self.min {
            self.min
        } else if value > self.max {
            self.max
        } else {
            value
        }
    }
}

/// Exclusive containment, as the intersection routines test candidate roots.
pub open spec fn spec_surrounds(i: Interval, v: int) -> bool {
    i.min < v && v < i.max
}

/// Saturating clamp into the range.
pub open spec fn spec_clamp(i: Interval, v: int) -> int {
    if v < i.min {
        i.min as int
    } else if v > i.max {
        i.max as int
    } else {
        v
    }
}

} // verus!
