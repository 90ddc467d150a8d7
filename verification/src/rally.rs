//! The rally ratio: how far the price stands above a recent low, as an exact
//! fraction of that low.

use vstd::prelude::*;

verus! {

/// The ratio `rise / base`, where `rise` is the latest price less the low and
/// `base` is the low. It is kept as the two integers, so that comparing it
/// with a threshold loses nothing to rounding.
///
/// A rise above a base of zero exceeds every threshold; no rise above a base
/// of zero exceeds none.
#[derive(Clone, Copy, Debug, PartialEq, Eq)]
pub struct Rally {
    pub rise: i128,
    pub base: u64,
}

impl Rally {
    /// The rise is the difference of two prices.
    pub open spec fn wf(self) -> bool {
        -(u64::MAX as int) <= self.rise <= u64::MAX as int
    }

    /// The ratio is strictly greater than `num / den`.
    pub open spec fn exceeds(self, num: int, den: int) -> bool {
        num * self.base < self.rise * den
    }

    /// The ratio of a price that has not moved: zero.
    pub fn flat() -> (r: Rally)
        ensures
            r.rise == 0,
            r.base == 1,
            r.wf(),
    {
        Rally { rise: 0, base: 1 }
    }

    /// The ratio of the rise of `price` over `low` to `low`.
    pub fn between(price: u64, low: u64) -> (r: Rally)
        ensures
            r.rise == price - low,
            r.base == low,
            r.wf(),
    {
        Rally { rise: price as i128 - low as i128, base: low }
    }

    /// Whether the ratio is strictly greater than the threshold `num / den`.
    pub fn is_above(&self, num: i64, den: u64) -> (r: bool)
        requires
            self.wf(),
        ensures
            r == self.exceeds(num as int, den as int),
    {
        let left_negative = num < 0;
        let left_size: u128 = if left_negative {
            (-(num as i128)) as u128
        } else {
            num as u128
        };
        let right_negative = self.rise < 0;
        let right_size: u128 = if right_negative {
            (-self.rise) as u128
        } else {
            self.rise as u128
        };
        proof {
            let (a, b) = (left_size as int, self.base as int);
            let (c, d) = (right_size as int, den as int);
            assert(0 <= a * b <= u64::MAX * u64::MAX) by (nonlinear_arith)
                requires
                    0 <= a <= u64::MAX,
                    0 <= b <= u64::MAX,
            ;
            assert(0 <= c * d <= u64::MAX * u64::MAX) by (nonlinear_arith)
                requires
                    0 <= c <= u64::MAX,
                    0 <= d <= u64::MAX,
            ;
            assert(num * self.base == if left_negative {
                -(a * b)
            } else {
                a * b
            }) by (nonlinear_arith)
                requires
                    a == if left_negative {
                        -num
                    } else {
                        num as int
                    },
                    b == self.base,
            ;
            assert(self.rise * den == if right_negative {
                -(c * d)
            } else {
                c * d
            }) by (nonlinear_arith)
                requires
                    c == if right_negative {
                        -self.rise
                    } else {
                        self.rise as int
                    },
                    d == den,
            ;
        }
        let left: u128 = left_size * self.base as u128;
        let right: u128 = right_size * den as u128;
        if left_negative {
            if right_negative {
                left > right
            } else {
                left > 0 || right > 0
            }
        } else {
            if right_negative {
                false
            } else {
                left < right
            }
        }
    }
}

} // verus!
