//! The statistics by which cities can be ranked.
use vstd::prelude::*;

verus! {

#[derive(PartialEq, Eq, Structural, Debug, Clone, Copy)]
pub enum Statistic {
    Population,
}

impl Statistic {
    /// Takes the statistic by unique reference and leaves it as it was.
    pub fn my(&mut self)
        ensures
            *final(self) == *old(self),
    {
    }
}

} // verus!
