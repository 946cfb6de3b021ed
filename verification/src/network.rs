//! The protocol that every trainable block follows.

use vstd::prelude::*;
use crate::array::{array_of, lemma_array_of_view};
use crate::compose::chain::Chain;
use crate::compose::zip::{Zip, Zipper};
use crate::scalar::Scalar;

verus! {

/// The values that a network keeps from one evaluation.
pub trait Intermediate {
    /// Type for the network's outputs and derivatives.
    type Out;

    /// The output that this record holds.
    spec fn spec_output(&self) -> Self::Out;

    /// Borrows the output of the network.
    fn output(&self) -> (out: &Self::Out)
        ensures
            *out == self.spec_output(),
    ;

    /// Returns the output of the network.
    fn into_output(self) -> (out: Self::Out)
        ensures
            out == self.spec_output(),
    ;
}

impl<S: Scalar, const NUM: usize> Intermediate for [S; NUM] {
    type Out = [S; NUM];

    open spec fn spec_output(&self) -> Self::Out {
        *self
    }

    fn output(&self) -> (out: &Self::Out) {
        self
    }

    fn into_output(self) -> (out: Self::Out) {
        self
    }
}

// Implemented mostly for error functions, as they simply reduce an array of scalars to a single
// scalar.
impl<S: Scalar> Intermediate for S {
    type Out = S;

    open spec fn spec_output(&self) -> Self::Out {
        *self
    }

    fn output(&self) -> (out: &Self::Out) {
        self
    }

    fn into_output(self) -> (out: Self::Out) {
        self
    }
}

/// Trait implemented by neural networks.
pub trait Network: Sized {
    /// Type for the network's inputs and derivatives.
    type In;

    /// Type for the network's outputs and derivatives.
    type Out;

    /// Type for storing intermediate calculations.
    type Inter: Intermediate<Out = Self::Out>;

    /// Type of the learning rate.
    type Rate;

    /// Whether the network is fit for use.
    spec fn wf(&self) -> bool;

    /// The record of an evaluation on `inputs`.
    spec fn spec_intermediate(&self, inputs: &Self::In) -> Self::Inter;

    /// The network after one training step.
    spec fn spec_trained(
        &self,
        inputs: &Self::In,
        intermediate: &Self::Inter,
        gradients: &Self::Out,
        learning_rate: Self::Rate,
    ) -> Self;

    /// The gradients over the inputs that one training step hands back.
    spec fn spec_train_deriv(
        &self,
        inputs: &Self::In,
        intermediate: &Self::Inter,
        gradients: &Self::Out,
        learning_rate: Self::Rate,
    ) -> Self::In;

    /// Training keeps a network fit for use.
    proof fn trained_wf(
        &self,
        inputs: &Self::In,
        intermediate: &Self::Inter,
        gradients: &Self::Out,
        learning_rate: Self::Rate,
    )
        requires
            self.wf(),
        ensures
            self.spec_trained(inputs, intermediate, gradients, learning_rate).wf(),
    ;

    /// Evaluate the network and return the intermediate calculations.
    fn intermediate(&self, inputs: &Self::In) -> (inter: Self::Inter)
        requires
            self.wf(),
        ensures
            inter == self.spec_intermediate(inputs),
    ;

    /// Train the network using a previous evaluation, the associated inputs, and gradients from
    /// a following network, and return the gradients over the inputs.
    fn train_deriv(
        &mut self,
        inputs: &Self::In,
        intermediate: &Self::Inter,
        gradients: &Self::Out,
        learning_rate: Self::Rate,
    ) -> (input_gradients: Self::In)
        requires
            old(self).wf(),
        ensures
            *final(self) == old(self).spec_trained(inputs, intermediate, gradients, learning_rate),
            input_gradients == old(self).spec_train_deriv(
                inputs,
                intermediate,
                gradients,
                learning_rate,
            ),
    ;

    /// Evaluate the network and return the outputs.
    fn eval(&self, inputs: &Self::In) -> (out: Self::Out)
        requires
            self.wf(),
        ensures
            out == self.spec_intermediate(inputs).spec_output(),
    {
        self.intermediate(inputs).into_output()
    }
}

/// The gradients that training starts from: a one for every output.
pub open spec fn ones<X: Scalar, const N: usize>() -> [X; N] {
    array_of::<X, N>(Seq::new(N as nat, |i: int| X::spec_one()))
}

/// What every [`Network`] offers on top of its own methods: training from the
/// unit gradients, and composition with other networks.
pub trait Compose: Network {
    /// Trains the network using a previous evaluation and the associated inputs.
    ///
    /// The gradients over the outputs are all taken to be one, which is what
    /// an error function at the end of a chain expects.
    fn train<X: Scalar, const N: usize>(
        &mut self,
        inputs: &Self::In,
        intermediate: &Self::Inter,
        learning_rate: Self::Rate,
    ) where Self: Network<Out = [X; N]>
        requires
            old(self).wf(),
        ensures
            *final(self) == old(self).spec_trained(
                inputs,
                intermediate,
                &ones::<X, N>(),
                learning_rate,
            ),
    ;

    /// Chains `self` and `next` together, after eachother.
    /// That is, `next` is connected to the output of this network.
    fn chain<U>(self, next: U) -> (chained: Chain<Self, U>) where
        U: Network<In = Self::Out, Rate = Self::Rate>,

        ensures
            chained.first == self,
            chained.second == next,
    ;

    /// Zips `self` and `other` together into one network, in parallel, combining their outputs
    /// into one using `zipper`, which also pulls the gradients over the
    /// combined outputs apart again.
    fn zip<U, Z>(self, other: U, zipper: Z) -> (zipped: Zip<Self, U, Z>) where
        U: Network<Rate = Self::Rate>,
        Z: Zipper<Self::Out, U::Out>,

        ensures
            zipped.top == self,
            zipped.bot == other,
            zipped.zipper == zipper,
    ;
}

impl<T: Network> Compose for T {
    fn train<X: Scalar, const N: usize>(
        &mut self,
        inputs: &Self::In,
        intermediate: &Self::Inter,
        learning_rate: Self::Rate,
    ) where Self: Network<Out = [X; N]> {
        let gradients: [X; N] = [X::one();N];
        proof {
            assert(gradients@ =~= Seq::new(N as nat, |i: int| X::spec_one()));
            lemma_array_of_view::<X, N>(gradients);
        }
        self.train_deriv(inputs, intermediate, &gradients, learning_rate);
    }

    fn chain<U>(self, next: U) -> (chained: Chain<Self, U>) where
        U: Network<In = Self::Out, Rate = Self::Rate>,
     {
        Chain { first: self, second: next }
    }

    fn zip<U, Z>(self, other: U, zipper: Z) -> (zipped: Zip<Self, U, Z>) where
        U: Network<Rate = Self::Rate>,
        Z: Zipper<Self::Out, U::Out>,
     {
        Zip { top: self, bot: other, zipper }
    }
}

} // verus!
