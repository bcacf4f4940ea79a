//! Two small producers of values, one call at a time.
use vstd::prelude::*;

verus! {

/// The integers from `start` up to and including `end`.
pub struct I32Range {
    pub start: i32,
    pub end: i32,
}

impl I32Range {
    /// The next integer of the range, or `None` once it is used up.
    pub fn next(&mut self) -> (r: Option<i32>)
        requires
            old(self).start <= old(self).end ==> old(self).start < i32::MAX,
        ensures
            final(self).end == old(self).end,
            old(self).start > old(self).end ==> r is None && *final(self) == *old(self),
            old(self).start <= old(self).end ==> r == Some(old(self).start) && final(self).start
                == old(self).start + 1,
    {
        if self.start > self.end {
            return None;
        }
        let res = Some(self.start);
        self.start = self.start + 1;
        res
    }
}

/// A producer that gives one value, then nothing, then the value again,
/// and so on.
pub struct ItsFlaky {
    pub ready: bool,
}

impl ItsFlaky {
    /// The value when ready, else `None`; each call flips readiness.
    pub fn next(&mut self) -> (r: Option<&'static str>)
        ensures
            final(self).ready == !old(self).ready,
            old(self).ready ==> (r matches Some(s) && s@ == "Last item -- I promise!"@),
            !old(self).ready ==> r is None,
    {
        if self.ready {
            self.ready = false;
            Some("Last item -- I promise!")
        } else {
            self.ready = true;
            None
        }
    }
}

} // verus!
