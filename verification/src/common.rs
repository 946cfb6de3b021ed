//! Error functions for [`NNetwork`](crate::net::NNetwork), and the activation
//! function that goes with them.

use vstd::prelude::*;
use crate::deriv::NDeriv;
use crate::error::{abs_sum, direction, distance, spec_direction, square_sum, squared_distance};
use crate::net::{error_derivs, reads_contents};
use crate::scalar::Scalar;

pub use crate::activ::LeakyRelu;

verus! {

/// The number of positions that `x` and `expected` share.
pub open spec fn shared_len<S>(x: Seq<S>, expected: Seq<S>) -> nat {
    if x.len() <= expected.len() {
        x.len()
    } else {
        expected.len()
    }
}

/// Sums the square of the difference between the expected values and the input values.
#[derive(Clone, Debug)]
pub struct SquareError<S> {
    /// The values that the outputs are held against.
    pub expected: Vec<S>,
}

impl<S: Scalar> NDeriv for SquareError<S> {
    type In = Vec<S>;

    type Out = S;

    open spec fn spec_call(&self, x: &Vec<S>) -> S {
        square_sum(x@, self.expected@, shared_len(x@, self.expected@))
    }

    open spec fn defined_at(&self, x: &Vec<S>, p: usize) -> bool {
        p < x@.len() && p < self.expected@.len()
    }

    open spec fn spec_deriv(&self, x: &Vec<S>, p: usize) -> S {
        S::spec_one().spec_plus(S::spec_one()).spec_times(
            x@[p as int].spec_minus(self.expected@[p as int]),
        )
    }

    fn call(&self, x: &Vec<S>) -> (y: S) {
        let n = if x.len() <= self.expected.len() {
            x.len()
        } else {
            self.expected.len()
        };
        let mut sum = S::zero();
        let mut i: usize = 0;
        while i < n
            invariant
                n <= x@.len(),
                n <= self.expected@.len(),
                i <= n,
                sum == square_sum(x@, self.expected@, i as nat),
            decreases n - i,
        {
            sum = sum.plus(squared_distance(x[i], self.expected[i]));
            i += 1;
        }
        sum
    }

    fn deriv(&self, x: &Vec<S>, p: usize) -> (y: S) {
        S::one().plus(S::one()).times(x[p].minus(self.expected[p]))
    }
}

/// Error function that sums the absolute differences between the expected and actual output.
///
/// Its derivative over an output is the sign of the difference: one where
/// the output is above what is expected, minus one where it is below, zero
/// otherwise.
#[derive(Clone, Debug)]
pub struct Sum<S> {
    /// The values that the outputs are held against.
    pub expected: Vec<S>,
}

impl<S: Scalar> NDeriv for Sum<S> {
    type In = Vec<S>;

    type Out = S;

    open spec fn spec_call(&self, x: &Vec<S>) -> S {
        abs_sum(x@, self.expected@, shared_len(x@, self.expected@))
    }

    open spec fn defined_at(&self, x: &Vec<S>, p: usize) -> bool {
        p < x@.len() && p < self.expected@.len()
    }

    open spec fn spec_deriv(&self, x: &Vec<S>, p: usize) -> S {
        spec_direction(x@[p as int], self.expected@[p as int])
    }

    fn call(&self, x: &Vec<S>) -> (y: S) {
        let n = if x.len() <= self.expected.len() {
            x.len()
        } else {
            self.expected.len()
        };
        let mut sum = S::zero();
        let mut i: usize = 0;
        while i < n
            invariant
                n <= x@.len(),
                n <= self.expected@.len(),
                i <= n,
                sum == abs_sum(x@, self.expected@, i as nat),
            decreases n - i,
        {
            sum = sum.plus(distance(x[i], self.expected[i]));
            i += 1;
        }
        sum
    }

    fn deriv(&self, x: &Vec<S>, p: usize) -> (y: S) {
        direction(x[p], self.expected[p])
    }
}

/// The derivatives of the squared error over each value of `outputs`.
pub open spec fn square_error_derivs<S: Scalar>(expected: Seq<S>, outputs: Seq<S>) -> Seq<S> {
    Seq::new(
        outputs.len(),
        |p: int|
            S::spec_one().spec_plus(S::spec_one()).spec_times(outputs[p].spec_minus(expected[p])),
    )
}

/// The derivatives of the summed absolute error over each value of `outputs`.
pub open spec fn sum_derivs<S: Scalar>(expected: Seq<S>, outputs: Seq<S>) -> Seq<S> {
    Seq::new(outputs.len(), |p: int| spec_direction(outputs[p], expected[p]))
}

/// The derivatives of the squared error depend only on what the vector of
/// outputs holds.
pub proof fn lemma_square_error_reads_contents<S: Scalar>(error: &SquareError<S>)
    ensures
        reads_contents(error, |outputs: Seq<S>| square_error_derivs(error.expected@, outputs)),
{
    assert forall|outputs: Vec<S>| #[trigger]
        error_derivs(error, outputs, outputs@.len()) == square_error_derivs(
            error.expected@,
            outputs@,
        ) by {
        assert(outputs.len() == outputs@.len());
        assert(error_derivs(error, outputs, outputs@.len()) =~= square_error_derivs(
            error.expected@,
            outputs@,
        ));
    }
}

/// The derivatives of the summed absolute error depend only on what the
/// vector of outputs holds.
pub proof fn lemma_sum_reads_contents<S: Scalar>(error: &Sum<S>)
    ensures
        reads_contents(error, |outputs: Seq<S>| sum_derivs(error.expected@, outputs)),
{
    assert forall|outputs: Vec<S>| #[trigger]
        error_derivs(error, outputs, outputs@.len()) == sum_derivs(error.expected@, outputs@) by {
        assert(outputs.len() == outputs@.len());
        assert(error_derivs(error, outputs, outputs@.len()) =~= sum_derivs(
            error.expected@,
            outputs@,
        ));
    }
}

} // verus!
