//! Functions bundled with their derivatives.

use vstd::prelude::*;

verus! {

/// A one-dimensional pure function with its derivative.
pub trait Deriv {
    /// The input type.
    type In;

    /// The output type.
    type Out;

    /// The value of the function at `x`.
    spec fn spec_call(&self, x: &Self::In) -> Self::Out;

    /// The value of the derivative at `x`.
    spec fn spec_deriv(&self, x: &Self::In) -> Self::Out;

    /// Normal function.
    fn call(&self, x: &Self::In) -> (y: Self::Out)
        ensures
            y == self.spec_call(x),
    ;

    /// Derivative of function.
    fn deriv(&self, x: &Self::In) -> (y: Self::Out)
        ensures
            y == self.spec_deriv(x),
    ;
}

/// A multi-dimensional pure function with its derivatives.
pub trait NDeriv {
    /// The input type.
    type In;

    /// The output type.
    type Out;

    /// The value of the function at `x`.
    spec fn spec_call(&self, x: &Self::In) -> Self::Out;

    /// Whether the function has a partial derivative on input `p` at `x`.
    spec fn defined_at(&self, x: &Self::In, p: usize) -> bool;

    /// The value of the partial derivative on input `p` at `x`.
    spec fn spec_deriv(&self, x: &Self::In, p: usize) -> Self::Out;

    /// Normal function.
    fn call(&self, x: &Self::In) -> (y: Self::Out)
        ensures
            y == self.spec_call(x),
    ;

    /// Partial derivative of function, where p is the index of the input to derive on.
    fn deriv(&self, x: &Self::In, p: usize) -> (y: Self::Out)
        requires
            self.defined_at(x, p),
        ensures
            y == self.spec_deriv(x, p),
    ;
}

// Any one-dimensional derivative is also a multi-dimensional derivative.
impl<T> NDeriv for T where T: Deriv {
    type In = [T::In; 1];

    type Out = T::Out;

    open spec fn spec_call(&self, x: &Self::In) -> Self::Out {
        Deriv::spec_call(self, &x@[0])
    }

    open spec fn defined_at(&self, x: &Self::In, p: usize) -> bool {
        true
    }

    open spec fn spec_deriv(&self, x: &Self::In, p: usize) -> Self::Out {
        Deriv::spec_deriv(self, &x@[0])
    }

    fn call(&self, x: &Self::In) -> (y: Self::Out) {
        self.call(&x[0])
    }

    fn deriv(&self, x: &Self::In, _p: usize) -> (y: Self::Out) {
        self.deriv(&x[0])
    }
}

} // verus!
