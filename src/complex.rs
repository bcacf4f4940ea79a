//! Complex numbers with integer parts.
use vstd::prelude::*;

verus! {

#[derive(PartialEq, Eq, Structural, Debug, Clone, Copy)]
pub struct Complex {
    pub re: i64,
    pub im: i64,
}

impl Complex {
    /// The sum, part by part.
    pub fn add(self, rhs: Complex) -> (r: Complex)
        requires
            i64::MIN <= self.re + rhs.re <= i64::MAX,
            i64::MIN <= self.im + rhs.im <= i64::MAX,
        ensures
            r.re == self.re + rhs.re,
            r.im == self.im + rhs.im,
    {
        Complex { re: self.re + rhs.re, im: self.im + rhs.im }
    }

    /// Adds `rhs` in place.
    pub fn add_assign(&mut self, rhs: Complex)
        requires
            i64::MIN <= old(self).re + rhs.re <= i64::MAX,
            i64::MIN <= old(self).im + rhs.im <= i64::MAX,
        ensures
            final(self).re == old(self).re + rhs.re,
            final(self).im == old(self).im + rhs.im,
    {
        self.im = self.im + rhs.im;
        self.re = self.re + rhs.re;
    }

    /// The negation, part by part.
    pub fn neg(self) -> (r: Complex)
        requires
            self.re > i64::MIN,
            self.im > i64::MIN,
        ensures
            r.re == -self.re,
            r.im == -self.im,
    {
        Complex { re: -self.re, im: -self.im }
    }
}

} // verus!
