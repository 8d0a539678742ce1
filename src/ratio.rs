//! Exact rational quantities: rates, percentages and per-subscriber values.
use vstd::prelude::*;

verus! {

/// The exact quantity `num / den`. Every ratio built by this crate has a
/// positive denominator; the fraction is not reduced.
#[derive(Clone, Copy, Debug, PartialEq, Eq, Structural)]
pub struct Ratio {
    pub num: i128,
    pub den: i128,
}

impl View for Ratio {
    type V = (int, int);

    open spec fn view(&self) -> (int, int) {
        (self.num as int, self.den as int)
    }
}

/// The fraction `q` (numerator, denominator) is worth exactly `k`.
pub open spec fn worth(q: (int, int), k: int) -> bool {
    q.1 > 0 && q.0 == k * q.1
}

impl Ratio {
    /// The whole number `k`, as `k / 1`.
    pub fn whole(k: i128) -> (r: Ratio)
        ensures
            r@ == (k as int, 1int),
    {
        Ratio { num: k, den: 1 }
    }
}

} // verus!
