//! The search for the widest context that a viewport holds.

use vstd::prelude::*;

verus! {

/// The radii that a search has left: the widest known to fit, and the widest
/// not known to be too wide.
pub struct Radii {
    pub low: nat,
    pub high: nat,
}

impl Radii {
    /// The radius to try next: the middle of those left, rounded up.
    pub open spec fn middle(self) -> nat {
        (self.low + (self.high - self.low + 1) / 2) as nat
    }

    /// The radii left once it is known whether the middle one fits.
    pub open spec fn told(self, fits: bool) -> Radii {
        if fits {
            Radii { low: self.middle(), high: self.high }
        } else {
            Radii { low: self.low, high: (self.middle() - 1) as nat }
        }
    }
}

/// The radii that a search over those up to `bound` has left after some
/// verdicts, each on the middle of the radii left before it.
pub open spec fn left_after(bound: nat, verdicts: Seq<bool>) -> Radii
    decreases verdicts.len(),
{
    if verdicts.len() == 0 {
        Radii { low: 0, high: bound }
    } else {
        left_after(bound, verdicts.drop_last()).told(verdicts.last())
    }
}

/// A binary search over context radii, told one radius at a time whether it
/// fits.
pub struct ContextSearch {
    low: usize,
    high: usize,
}

impl ContextSearch {
    /// The widest radius known to fit.
    pub closed spec fn low(self) -> nat {
        self.low as nat
    }

    /// The widest radius not known to be too wide.
    pub closed spec fn high(self) -> nat {
        self.high as nat
    }

    /// Whether the search can go on.
    pub open spec fn valid(self) -> bool {
        self.low() <= self.high()
    }

    /// The radii that are left.
    pub open spec fn left(self) -> Radii {
        Radii { low: self.low(), high: self.high() }
    }

    /// The radius to try next, where one is left.
    pub open spec fn next(self) -> Option<nat> {
        if self.low() < self.high() {
            Some(self.left().middle())
        } else {
            None
        }
    }

    /// A search over the radii up to `bound`, with radius zero known to fit.
    pub fn new(bound: usize) -> (search: Self)
        ensures
            search.valid(),
            search.low() == 0,
            search.high() == bound,
    {
        ContextSearch { low: 0, high: bound }
    }

    /// The radius to try next, where one is left.
    pub fn candidate(&self) -> (radius: Option<usize>)
        requires
            self.valid(),
        ensures
            radius is Some == (self.next() is Some),
            radius matches Some(radius) ==> self.next() == Some(radius as nat) && self.low()
                < radius <= self.high(),
    {
        if self.low < self.high {
            let left: usize = self.high - self.low;
            let half: usize = left / 2 + left % 2;
            Some(self.low + half)
        } else {
            None
        }
    }

    /// Takes in whether the radius that was tried fits.
    pub fn answer(&mut self, radius: usize, fits: bool)
        requires
            old(self).valid(),
            old(self).low() < radius <= old(self).high(),
        ensures
            final(self).valid(),
            fits ==> final(self).low() == radius && final(self).high() == old(self).high(),
            !fits ==> final(self).low() == old(self).low() && final(self).high() == radius - 1,
    {
        if fits {
            self.low = radius;
        } else {
            self.high = radius - 1;
        }
    }

    /// The widest radius known to fit.
    pub fn widest(&self) -> (radius: usize)
        ensures
            radius == self.low(),
    {
        self.low
    }
}

} // verus!
