//! The number type that the networks compute with.

use vstd::prelude::*;

verus! {

/// A number type with the handful of operations that evaluation and
/// backpropagation need.
///
/// Each operation comes as a pair: a specification function that names the
/// result, and an executable method that returns exactly that result. Nothing
/// else is asked of the operations: no associativity, no neutral element, no
/// relation between `spec_minus` and `spec_plus`. What is proved of a network
/// therefore holds for rounding and for saturating arithmetic alike.
///
/// [`Fixed`](crate::fixed::Fixed) is an implementation that is verified down
/// to its arithmetic. An implementation for a machine float has to be written
/// outside the verifier, where nothing checks it: it meets this trait as long
/// as every operation is a function of its operands and of nothing else.
pub trait Scalar: Copy {
    /// The value that sums start from.
    spec fn spec_zero() -> Self;

    /// The unit gradient.
    spec fn spec_one() -> Self;

    /// `self + rhs`.
    spec fn spec_plus(self, rhs: Self) -> Self;

    /// `self - rhs`.
    spec fn spec_minus(self, rhs: Self) -> Self;

    /// `self * rhs`.
    spec fn spec_times(self, rhs: Self) -> Self;

    /// `|self|`.
    spec fn spec_abs(self) -> Self;

    /// Whether `self` is strictly greater than zero.
    spec fn spec_is_positive(self) -> bool;

    fn zero() -> (r: Self)
        ensures
            r == Self::spec_zero(),
    ;

    fn one() -> (r: Self)
        ensures
            r == Self::spec_one(),
    ;

    fn plus(self, rhs: Self) -> (r: Self)
        ensures
            r == self.spec_plus(rhs),
    ;

    fn minus(self, rhs: Self) -> (r: Self)
        ensures
            r == self.spec_minus(rhs),
    ;

    fn times(self, rhs: Self) -> (r: Self)
        ensures
            r == self.spec_times(rhs),
    ;

    fn abs(self) -> (r: Self)
        ensures
            r == self.spec_abs(),
    ;

    fn is_positive(self) -> (r: bool)
        ensures
            r == self.spec_is_positive(),
    ;
}

} // verus!
