//! Error functions as the last network of a chain.

use vstd::prelude::*;
use crate::array::{array_of, collect_array, lemma_array_of_view};
use crate::network::Network;
use crate::scalar::Scalar;

verus! {

/// The square of the difference between a value and what was expected.
pub open spec fn spec_squared_distance<S: Scalar>(x: S, expected: S) -> S {
    x.spec_minus(expected).spec_times(x.spec_minus(expected))
}

/// The absolute difference between a value and what was expected.
pub open spec fn spec_distance<S: Scalar>(x: S, expected: S) -> S {
    x.spec_minus(expected).spec_abs()
}

/// The sum of the squared differences over the first `n` positions, added up
/// from the left and starting from zero.
pub open spec fn square_sum<S: Scalar>(x: Seq<S>, expected: Seq<S>, n: nat) -> S
    decreases n,
{
    if n == 0 {
        S::spec_zero()
    } else {
        square_sum(x, expected, (n - 1) as nat).spec_plus(
            spec_squared_distance(x[n - 1], expected[n - 1]),
        )
    }
}

/// The sum of the absolute differences over the first `n` positions, added up
/// from the left and starting from zero.
pub open spec fn abs_sum<S: Scalar>(x: Seq<S>, expected: Seq<S>, n: nat) -> S
    decreases n,
{
    if n == 0 {
        S::spec_zero()
    } else {
        abs_sum(x, expected, (n - 1) as nat).spec_plus(spec_distance(x[n - 1], expected[n - 1]))
    }
}

/// Squares the difference between a value and what was expected: one term of
/// the squared error.
pub fn squared_distance<S: Scalar>(x: S, expected: S) -> (r: S)
    ensures
        r == spec_squared_distance(x, expected),
{
    let d = x.minus(expected);
    d.times(d)
}

/// Takes the absolute difference between a value and what was expected: one
/// term of the summed error.
pub fn distance<S: Scalar>(x: S, expected: S) -> (r: S)
    ensures
        r == spec_distance(x, expected),
{
    x.minus(expected).abs()
}

/// Twice the difference at each position.
pub open spec fn double_differences<S: Scalar>(x: Seq<S>, expected: Seq<S>) -> Seq<S> {
    Seq::new(
        x.len(),
        |i: int| S::spec_one().spec_plus(S::spec_one()).spec_times(x[i].spec_minus(expected[i])),
    )
}

/// The sign of the difference between a value and what was expected: one
/// where the value is above it, minus one where it is below, zero otherwise.
/// This is the slope of the absolute difference.
pub open spec fn spec_direction<S: Scalar>(x: S, expected: S) -> S {
    if x.spec_minus(expected).spec_is_positive() {
        S::spec_one()
    } else if expected.spec_minus(x).spec_is_positive() {
        S::spec_zero().spec_minus(S::spec_one())
    } else {
        S::spec_zero()
    }
}

/// Tells on which side of what was expected a value lies: one above it,
/// minus one below it, zero otherwise.
pub fn direction<S: Scalar>(x: S, expected: S) -> (r: S)
    ensures
        r == spec_direction(x, expected),
{
    if x.minus(expected).is_positive() {
        S::one()
    } else if expected.minus(x).is_positive() {
        S::zero().minus(S::one())
    } else {
        S::zero()
    }
}

/// The sign of the difference at each position.
pub open spec fn directions<S: Scalar>(x: Seq<S>, expected: Seq<S>) -> Seq<S> {
    Seq::new(x.len(), |i: int| spec_direction(x[i], expected[i]))
}

/// The squared distance between the inputs and the expected values.
///
/// As a network it has no parameters: training leaves it as it is, and hands
/// back the derivative of the error over each input.
pub struct SquareError<S, const N: usize> {
    /// The values that the inputs are held against.
    pub expected: [S; N],
}

impl<S: Scalar, const N: usize> Network for SquareError<S, N> {
    type In = [S; N];

    type Out = [S; 1];

    type Inter = [S; 1];

    type Rate = S;

    open spec fn wf(&self) -> bool {
        N <= u32::MAX
    }

    open spec fn spec_intermediate(&self, inputs: &Self::In) -> Self::Inter {
        array_of::<S, 1>(seq![square_sum(inputs@, self.expected@, N as nat)])
    }

    open spec fn spec_trained(
        &self,
        inputs: &Self::In,
        intermediate: &Self::Inter,
        gradients: &Self::Out,
        learning_rate: S,
    ) -> Self {
        *self
    }

    open spec fn spec_train_deriv(
        &self,
        inputs: &Self::In,
        intermediate: &Self::Inter,
        gradients: &Self::Out,
        learning_rate: S,
    ) -> Self::In {
        array_of::<S, N>(double_differences(inputs@, self.expected@))
    }

    proof fn trained_wf(
        &self,
        inputs: &Self::In,
        intermediate: &Self::Inter,
        gradients: &Self::Out,
        learning_rate: S,
    ) {
    }

    fn intermediate(&self, inputs: &Self::In) -> (inter: Self::Inter) {
        let mut sum = S::zero();
        let mut i: usize = 0;
        while i < N
            invariant
                i <= N,
                sum == square_sum(inputs@, self.expected@, i as nat),
            decreases N - i,
        {
            sum = sum.plus(squared_distance(inputs[i], self.expected[i]));
            i += 1;
        }
        let inter = [sum];
        proof {
            assert(inter@ =~= seq![square_sum(inputs@, self.expected@, N as nat)]);
            lemma_array_of_view::<S, 1>(inter);
        }
        inter
    }

    fn train_deriv(
        &mut self,
        inputs: &Self::In,
        _intermediate: &Self::Inter,
        _gradients: &Self::Out,
        _learning_rate: S,
    ) -> (input_gradients: Self::In) {
        let two = S::one().plus(S::one());
        let mut out: Vec<S> = Vec::with_capacity(N);
        let mut i: usize = 0;
        while i < N
            invariant
                i <= N,
                two == S::spec_one().spec_plus(S::spec_one()),
                out@.len() == i,
                forall|k: int|
                    0 <= k < i ==> out@[k] == two.spec_times(
                        inputs@[k].spec_minus(self.expected@[k]),
                    ),
            decreases N - i,
        {
            out.push(two.times(inputs[i].minus(self.expected[i])));
            i += 1;
        }
        assert(out@ =~= double_differences(inputs@, self.expected@));
        match collect_array::<S, N>(&out) {
            Some(out) => {
                proof {
                    lemma_array_of_view::<S, N>(out);
                }
                out
            },
            None => vstd::pervasive::unreached::<[S; N]>(),
        }
    }
}

/// The summed absolute distance between the inputs and the expected values.
///
/// As a network it has no parameters: training leaves it as it is, and hands
/// back the derivative of the error over each input, which is the sign of the
/// difference between the input and its expected value.
pub struct SumError<S, const N: usize> {
    /// The values that the inputs are held against.
    pub expected: [S; N],
}

impl<S: Scalar, const N: usize> Network for SumError<S, N> {
    type In = [S; N];

    type Out = [S; 1];

    type Inter = [S; 1];

    type Rate = S;

    open spec fn wf(&self) -> bool {
        N <= u32::MAX
    }

    open spec fn spec_intermediate(&self, inputs: &Self::In) -> Self::Inter {
        array_of::<S, 1>(seq![abs_sum(inputs@, self.expected@, N as nat)])
    }

    open spec fn spec_trained(
        &self,
        inputs: &Self::In,
        intermediate: &Self::Inter,
        gradients: &Self::Out,
        learning_rate: S,
    ) -> Self {
        *self
    }

    open spec fn spec_train_deriv(
        &self,
        inputs: &Self::In,
        intermediate: &Self::Inter,
        gradients: &Self::Out,
        learning_rate: S,
    ) -> Self::In {
        array_of::<S, N>(directions(inputs@, self.expected@))
    }

    proof fn trained_wf(
        &self,
        inputs: &Self::In,
        intermediate: &Self::Inter,
        gradients: &Self::Out,
        learning_rate: S,
    ) {
    }

    fn intermediate(&self, inputs: &Self::In) -> (inter: Self::Inter) {
        let mut sum = S::zero();
        let mut i: usize = 0;
        while i < N
            invariant
                i <= N,
                sum == abs_sum(inputs@, self.expected@, i as nat),
            decreases N - i,
        {
            sum = sum.plus(distance(inputs[i], self.expected[i]));
            i += 1;
        }
        let inter = [sum];
        proof {
            assert(inter@ =~= seq![abs_sum(inputs@, self.expected@, N as nat)]);
            lemma_array_of_view::<S, 1>(inter);
        }
        inter
    }

    fn train_deriv(
        &mut self,
        inputs: &Self::In,
        _intermediate: &Self::Inter,
        _gradients: &Self::Out,
        _learning_rate: S,
    ) -> (input_gradients: Self::In) {
        let mut out: Vec<S> = Vec::with_capacity(N);
        let mut i: usize = 0;
        while i < N
            invariant
                i <= N,
                out@.len() == i,
                forall|k: int| 0 <= k < i ==> out@[k] == spec_direction(inputs@[k], self.expected@[k]),
            decreases N - i,
        {
            out.push(direction(inputs[i], self.expected[i]));
            i += 1;
        }
        assert(out@ =~= directions(inputs@, self.expected@));
        match collect_array::<S, N>(&out) {
            Some(out) => {
                proof {
                    lemma_array_of_view::<S, N>(out);
                }
                out
            },
            None => vstd::pervasive::unreached::<[S; N]>(),
        }
    }
}

} // verus!
