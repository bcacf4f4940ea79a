//! Closed intervals of integers, ordered only when they do not overlap.
use vstd::prelude::*;
use std::cmp::Ordering;

verus! {

#[derive(PartialEq, Eq, Structural, Debug, Clone, Copy)]
pub struct Interval {
    pub lower: i64,
    pub upper: i64,
}

/// Equal intervals compare equal; otherwise one interval is greater than
/// another when it lies wholly above it and less when it lies wholly below
/// it. Overlapping, unequal intervals are not ordered.
pub open spec fn interval_cmp(a: Interval, b: Interval) -> Option<Ordering> {
    if a == b {
        Some(Ordering::Equal)
    } else if a.lower > b.upper {
        Some(Ordering::Greater)
    } else if a.upper < b.lower {
        Some(Ordering::Less)
    } else {
        None
    }
}

impl Interval {
    pub fn new(lower: i64, upper: i64) -> (r: Interval)
        ensures
            r.lower == lower,
            r.upper == upper,
    {
        Interval { lower, upper }
    }
}

impl PartialOrd for Interval {
    fn partial_cmp(&self, other: &Interval) -> (r: Option<Ordering>)
        ensures
            r == interval_cmp(*self, *other),
    {
        if self == other {
            Some(Ordering::Equal)
        } else if self.lower > other.upper {
            Some(Ordering::Greater)
        } else if self.upper < other.lower {
            Some(Ordering::Less)
        } else {
            None
        }
    }
}

impl vstd::std_specs::cmp::PartialOrdSpecImpl for Interval {
    open spec fn obeys_partial_cmp_spec() -> bool {
        true
    }

    open spec fn partial_cmp_spec(&self, other: &Interval) -> Option<Ordering> {
        interval_cmp(*self, *other)
    }
}

} // verus!
