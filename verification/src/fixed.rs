//! A number type that is verified down to its arithmetic.

use vstd::prelude::*;
use crate::scalar::Scalar;

verus! {

/// The number of fractional steps in one unit.
pub const UNIT: i64 = 65536;

/// A fixed-point number: a count of 65536ths in an `i64`.
///
/// Results that do not fit are replaced by the nearest number that does, and
/// products are rounded towards zero.
#[derive(Clone, Copy, Debug, PartialEq, Eq, Structural)]
pub struct Fixed(pub i64);

/// The number in `i64` that is nearest to `x`.
pub open spec fn nearest(x: int) -> i64 {
    if x < i64::MIN {
        i64::MIN
    } else if x > i64::MAX {
        i64::MAX
    } else {
        x as i64
    }
}

/// The quotient of `x` by 65536, rounded towards zero.
pub open spec fn units(x: int) -> int {
    if x >= 0 {
        x / (UNIT as int)
    } else {
        -((-x) / (UNIT as int))
    }
}

/// Brings a wide intermediate result back into `i64`.
fn saturate(x: i128) -> (r: i64)
    ensures
        r == nearest(x as int),
{
    if x < i64::MIN as i128 {
        i64::MIN
    } else if x > i64::MAX as i128 {
        i64::MAX
    } else {
        x as i64
    }
}

impl Scalar for Fixed {
    open spec fn spec_zero() -> Self {
        Fixed(0)
    }

    open spec fn spec_one() -> Self {
        Fixed(UNIT)
    }

    open spec fn spec_plus(self, rhs: Self) -> Self {
        Fixed(nearest(self.0 + rhs.0))
    }

    open spec fn spec_minus(self, rhs: Self) -> Self {
        Fixed(nearest(self.0 - rhs.0))
    }

    open spec fn spec_times(self, rhs: Self) -> Self {
        Fixed(nearest(units(self.0 * rhs.0)))
    }

    open spec fn spec_abs(self) -> Self {
        Fixed(
            nearest(
                if self.0 < 0 {
                    -self.0
                } else {
                    self.0 as int
                },
            ),
        )
    }

    open spec fn spec_is_positive(self) -> bool {
        self.0 > 0
    }

    fn zero() -> (r: Self) {
        Fixed(0)
    }

    fn one() -> (r: Self) {
        Fixed(UNIT)
    }

    fn plus(self, rhs: Self) -> (r: Self) {
        Fixed(saturate(self.0 as i128 + rhs.0 as i128))
    }

    fn minus(self, rhs: Self) -> (r: Self) {
        Fixed(saturate(self.0 as i128 - rhs.0 as i128))
    }

    fn times(self, rhs: Self) -> (r: Self) {
        let a: i128 = self.0 as i128;
        let b: i128 = rhs.0 as i128;
        assert(-0x4000_0000_0000_0000_0000_0000_0000_0000 <= a * b
            <= 0x4000_0000_0000_0000_0000_0000_0000_0000) by (nonlinear_arith)
            requires
                -0x8000_0000_0000_0000 <= a <= 0x8000_0000_0000_0000,
                -0x8000_0000_0000_0000 <= b <= 0x8000_0000_0000_0000,
        ;
        let product: i128 = a * b;
        let quotient: i128 = if product >= 0 {
            product / (UNIT as i128)
        } else {
            -((-product) / (UNIT as i128))
        };
        Fixed(saturate(quotient))
    }

    fn abs(self) -> (r: Self) {
        if self.0 < 0 {
            Fixed(saturate(-(self.0 as i128)))
        } else {
            Fixed(self.0)
        }
    }

    fn is_positive(self) -> (r: bool) {
        self.0 > 0
    }
}

} // verus!
