//! Sequential composition.

use vstd::prelude::*;
use crate::network::{Intermediate, Network};

verus! {

/// Chains two networks together, after eachother.
pub struct Chain<T, U> {
    /// The first part of the chain.
    pub first: T,
    /// The second part of the chain.
    pub second: U,
}

/// The intermediate values of an evaluation of a [`Chain`].
pub struct ChainInter<T, U> {
    /// The intermediate calculation of the first network.
    pub first: T,
    /// The intermediate calculation of the second network.
    pub second: U,
}

impl<T, U> Intermediate for ChainInter<T, U> where T: Intermediate, U: Intermediate {
    type Out = U::Out;

    open spec fn spec_output(&self) -> Self::Out {
        self.second.spec_output()
    }

    fn output(&self) -> (out: &Self::Out) {
        self.second.output()
    }

    fn into_output(self) -> (out: Self::Out) {
        self.second.into_output()
    }
}

impl<T, U> Network for Chain<T, U> where
    T: Network,
    U: Network<In = T::Out, Rate = T::Rate>,
    T::Rate: Copy,
 {
    type In = T::In;

    type Out = U::Out;

    type Inter = ChainInter<T::Inter, U::Inter>;

    type Rate = T::Rate;

    open spec fn wf(&self) -> bool {
        self.first.wf() && self.second.wf()
    }

    open spec fn spec_intermediate(&self, inputs: &Self::In) -> Self::Inter {
        let first = self.first.spec_intermediate(inputs);
        ChainInter { first, second: self.second.spec_intermediate(&first.spec_output()) }
    }

    open spec fn spec_train_deriv(
        &self,
        inputs: &Self::In,
        intermediate: &Self::Inter,
        gradients: &Self::Out,
        learning_rate: Self::Rate,
    ) -> Self::In {
        let boundary = self.second.spec_train_deriv(
            &intermediate.first.spec_output(),
            &intermediate.second,
            gradients,
            learning_rate,
        );
        self.first.spec_train_deriv(inputs, &intermediate.first, &boundary, learning_rate)
    }

    open spec fn spec_trained(
        &self,
        inputs: &Self::In,
        intermediate: &Self::Inter,
        gradients: &Self::Out,
        learning_rate: Self::Rate,
    ) -> Self {
        let boundary = self.second.spec_train_deriv(
            &intermediate.first.spec_output(),
            &intermediate.second,
            gradients,
            learning_rate,
        );
        Chain {
            first: self.first.spec_trained(inputs, &intermediate.first, &boundary, learning_rate),
            second: self.second.spec_trained(
                &intermediate.first.spec_output(),
                &intermediate.second,
                gradients,
                learning_rate,
            ),
        }
    }

    proof fn trained_wf(
        &self,
        inputs: &Self::In,
        intermediate: &Self::Inter,
        gradients: &Self::Out,
        learning_rate: Self::Rate,
    ) {
        let boundary = self.second.spec_train_deriv(
            &intermediate.first.spec_output(),
            &intermediate.second,
            gradients,
            learning_rate,
        );
        self.first.trained_wf(inputs, &intermediate.first, &boundary, learning_rate);
        self.second.trained_wf(
            &intermediate.first.spec_output(),
            &intermediate.second,
            gradients,
            learning_rate,
        );
    }

    fn intermediate(&self, inputs: &Self::In) -> (inter: Self::Inter) {
        let first = self.first.intermediate(inputs);
        let second = self.second.intermediate(first.output());
        ChainInter { first, second }
    }

    fn train_deriv(
        &mut self,
        inputs: &Self::In,
        intermediate: &Self::Inter,
        gradients: &Self::Out,
        learning_rate: Self::Rate,
    ) -> (input_gradients: Self::In) {
        let boundary = self.second.train_deriv(
            intermediate.first.output(),
            &intermediate.second,
            gradients,
            learning_rate,
        );
        self.first.train_deriv(inputs, &intermediate.first, &boundary, learning_rate)
    }
}

/// The output of a chain is the output of the second network on the output
/// of the first.
pub proof fn lemma_chain_output<T, U>(chain: Chain<T, U>, inputs: T::In) where
    T: Network,
    U: Network<In = T::Out, Rate = T::Rate>,
    T::Rate: Copy,

    ensures
        chain.spec_intermediate(&inputs).spec_output() == chain.second.spec_intermediate(
            &chain.first.spec_intermediate(&inputs).spec_output(),
        ).spec_output(),
{
}

/// Chains of chains behave as one flat chain: whichever way three networks
/// are grouped, evaluation gives the same output, and training on matching
/// records hands back the same gradients and leaves each of the three
/// networks in the same state.
pub proof fn lemma_chain_associative<T, U, V>(
    a: T,
    b: U,
    c: V,
    inputs: T::In,
    gradients: V::Out,
    learning_rate: T::Rate,
) where
    T: Network,
    U: Network<In = T::Out, Rate = T::Rate>,
    V: Network<In = U::Out, Rate = T::Rate>,
    T::Rate: Copy,

    ensures
        ({
            let left = Chain { first: Chain { first: a, second: b }, second: c };
            let right = Chain { first: a, second: Chain { first: b, second: c } };
            let left_inter = left.spec_intermediate(&inputs);
            let right_inter = right.spec_intermediate(&inputs);
            let left_trained = left.spec_trained(&inputs, &left_inter, &gradients, learning_rate);
            let right_trained = right.spec_trained(
                &inputs,
                &right_inter,
                &gradients,
                learning_rate,
            );
            &&& left_inter.spec_output() == right_inter.spec_output()
            &&& left_inter.first.first == right_inter.first
            &&& left_inter.first.second == right_inter.second.first
            &&& left_inter.second == right_inter.second.second
            &&& left.spec_train_deriv(&inputs, &left_inter, &gradients, learning_rate)
                == right.spec_train_deriv(&inputs, &right_inter, &gradients, learning_rate)
            &&& left_trained.first.first == right_trained.first
            &&& left_trained.first.second == right_trained.second.first
            &&& left_trained.second == right_trained.second.second
        }),
{
}

} // verus!
