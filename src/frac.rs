use vstd::prelude::*;

verus! {

/// A non-negative ratio `num / den`.
#[derive(Clone, Copy, Debug, PartialEq, Eq, Structural)]
pub struct Frac {
    pub num: u32,
    pub den: u32,
}

impl Frac {
    /// The denominator is non-zero.
    pub open spec fn wf(self) -> bool {
        self.den > 0
    }

    /// A well-formed ratio that lies in `[0, 1]`.
    pub open spec fn is_unit(self) -> bool {
        self.den > 0 && self.num <= self.den
    }

    /// The ratio `num / den`, or `None` when `den` is zero.
    pub fn new(num: u32, den: u32) -> (r: Option<Frac>)
        ensures
            den == 0 ==> r.is_none(),
            den > 0 ==> r == Some(Frac { num, den }),
    {
        if den == 0 {
            None
        } else {
            Some(Frac { num, den })
        }
    }
}

} // verus!
