//! Closed ranges of scalars.

use vstd::prelude::*;
use crate::scalar::{Scalar, INFINITY, NEG_INFINITY, min_of, max_of, min, max};

verus! {

/// The scalars from `min` to `max`. With `min > max` the interval holds
/// nothing.
#[derive(Clone, Copy, Debug, PartialEq, Eq, Structural)]
pub struct Interval {
    pub min: Scalar,
    pub max: Scalar,
}

impl Interval {
    /// `x` lies in the interval, ends included.
    pub open spec fn holds(self, x: int) -> bool {
        self.min <= x <= self.max
    }

    /// `x` lies strictly inside the interval.
    pub open spec fn encloses(self, x: int) -> bool {
        self.min < x < self.max
    }

    /// No scalar lies in the interval.
    pub open spec fn is_empty(self) -> bool {
        self.min > self.max
    }

    /// Every scalar of `other` is one of `self`.
    pub open spec fn includes(self, other: Interval) -> bool {
        self.min <= other.min && other.max <= self.max
    }

    /// The smallest interval that includes both `a` and `b`.
    pub open spec fn hull(a: Interval, b: Interval) -> Interval {
        Interval {
            min: min_of(a.min as int, b.min as int) as Scalar,
            max: max_of(a.max as int, b.max as int) as Scalar,
        }
    }

    /// The scalar of the interval nearest to `x`.
    pub open spec fn nearest(self, x: int) -> int {
        if x < self.min {
            self.min as int
        } else if x > self.max {
            self.max as int
        } else {
            x
        }
    }

    pub fn new(min: Scalar, max: Scalar) -> (r: Self)
        ensures
            r == (Interval { min, max }),
    {
        Interval { min, max }
    }

    /// The interval that holds nothing: from positive down to negative
    /// infinity.
    pub fn empty() -> (r: Self)
        ensures
            r == (Interval { min: INFINITY, max: NEG_INFINITY }),
            r.is_empty(),
    {
        Interval { min: INFINITY, max: NEG_INFINITY }
    }

    /// The interval that holds every number.
    pub fn universe() -> (r: Self)
        ensures
            r == (Interval { min: NEG_INFINITY, max: INFINITY }),
    {
        Interval { min: NEG_INFINITY, max: INFINITY }
    }

    /// Merges two intervals into the smallest one that includes both.
    pub fn merge(interval1: &Self, interval2: &Self) -> (r: Self)
        ensures
            r == Self::hull(*interval1, *interval2),
    {
        Interval {
            min: min(interval1.min, interval2.min),
            max: max(interval1.max, interval2.max),
        }
    }

    pub fn contains(&self, x: Scalar) -> (r: bool)
        ensures
            r == self.holds(x as int),
    {
        self.min <= x && self.max >= x
    }

    pub fn surrounds(&self, x: Scalar) -> (r: bool)
        ensures
            r == self.encloses(x as int),
    {
        self.min < x && self.max > x
    }

    pub fn clamp(&self, x: Scalar) -> (r: Scalar)
        ensures
            r == self.nearest(x as int),
    {
        if x < self.min {
            return self.min;
        }
        if x > self.max {
            return self.max;
        }
        x
    }
}

impl Default for Interval {
    /// The empty interval.
    fn default() -> (r: Self)
        ensures
            r == (Interval { min: INFINITY, max: NEG_INFINITY }),
    {
        Interval { min: INFINITY, max: NEG_INFINITY }
    }
}

/// Merging does not depend on the order of its operands.
pub proof fn lemma_merge_commutative(a: Interval, b: Interval)
    ensures
        Interval::hull(a, b) == Interval::hull(b, a),
{
}

/// Merging three intervals gives the same result however they are grouped.
pub proof fn lemma_merge_associative(a: Interval, b: Interval, c: Interval)
    ensures
        Interval::hull(Interval::hull(a, b), c) == Interval::hull(a, Interval::hull(b, c)),
{
}

/// A merged interval contains every point that either operand contains.
pub proof fn lemma_merge_contains(a: Interval, b: Interval, x: int)
    requires
        a.holds(x) || b.holds(x),
    ensures
        Interval::hull(a, b).holds(x),
{
}

} // verus!
