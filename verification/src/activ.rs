//! Activation functions.

use vstd::prelude::*;
use crate::deriv::Deriv;
use crate::scalar::Scalar;

verus! {

/// Leaky Rectified Linear unit activation function: the identity on positive
/// inputs, and a multiplication by the held slope on all others.
#[derive(Clone, Copy, Debug, PartialEq)]
pub struct LeakyRelu<S>(pub S);

impl<S: Scalar> Deriv for LeakyRelu<S> {
    type In = S;

    type Out = S;

    open spec fn spec_call(&self, x: &S) -> S {
        if x.spec_is_positive() {
            *x
        } else {
            self.0.spec_times(*x)
        }
    }

    open spec fn spec_deriv(&self, x: &S) -> S {
        if x.spec_is_positive() {
            S::spec_one()
        } else {
            self.0
        }
    }

    fn call(&self, x: &S) -> (y: S) {
        if x.is_positive() {
            *x
        } else {
            self.0.times(*x)
        }
    }

    fn deriv(&self, x: &S) -> (y: S) {
        if x.is_positive() {
            S::one()
        } else {
            self.0
        }
    }
}

} // verus!
