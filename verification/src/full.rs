//! A fully connected layer of fixed size.

use vstd::prelude::*;
use crate::array::{array_of, collect_array, lemma_array_of, lemma_array_of_view};
use crate::compose::chain::Chain;
use crate::deriv::Deriv;
use crate::linalg::{column, dot, dot_product, dot_upto};
use crate::network::{Intermediate, Network};
use crate::scalar::Scalar;

verus! {

/// A fully connected network layer, with a given input and output size and an activation function.
///
/// The layer owns its weights and biases: they are set when it is built,
/// changed by its own training step and by nothing else, and can be read
/// through [`Full::weights`] and [`Full::biases`]. `weights[i][j]` is the
/// weight from input `j` to output `i`.
pub struct Full<const NUM_IN: usize, const NUM_OUT: usize, A: Deriv> {
    weights: [[A::In; NUM_IN]; NUM_OUT],
    biases: [A::In; NUM_OUT],
    act: A,
}

impl<const NUM_IN: usize, const NUM_OUT: usize, A: Deriv> Full<NUM_IN, NUM_OUT, A> {
    /// The weights, one row for each output.
    pub closed spec fn spec_weights(&self) -> [[A::In; NUM_IN]; NUM_OUT] {
        self.weights
    }

    /// The biases, one for each output.
    pub closed spec fn spec_biases(&self) -> [A::In; NUM_OUT] {
        self.biases
    }

    /// The activation function.
    pub closed spec fn spec_act(&self) -> A {
        self.act
    }

    /// The layer with the given weights, biases and activation function.
    pub closed spec fn with_parts(
        weights: [[A::In; NUM_IN]; NUM_OUT],
        biases: [A::In; NUM_OUT],
        act: A,
    ) -> Self {
        Full { weights, biases, act }
    }

    /// A layer made of parts holds those parts.
    pub proof fn lemma_with_parts(
        weights: [[A::In; NUM_IN]; NUM_OUT],
        biases: [A::In; NUM_OUT],
        act: A,
    )
        ensures
            Self::with_parts(weights, biases, act).spec_weights() == weights,
            Self::with_parts(weights, biases, act).spec_biases() == biases,
            Self::with_parts(weights, biases, act).spec_act() == act,
    {
    }

    /// A layer is nothing but its parts.
    pub proof fn lemma_same_parts(self, other: Self)
        requires
            self.spec_weights() == other.spec_weights(),
            self.spec_biases() == other.spec_biases(),
            self.spec_act() == other.spec_act(),
        ensures
            self == other,
    {
    }

    /// The weights, one row for each output.
    pub fn weights(&self) -> (weights: &[[A::In; NUM_IN]; NUM_OUT])
        ensures
            *weights == self.spec_weights(),
    {
        &self.weights
    }

    /// The biases, one for each output.
    pub fn biases(&self) -> (biases: &[A::In; NUM_OUT])
        ensures
            *biases == self.spec_biases(),
    {
        &self.biases
    }

    /// The activation function.
    pub fn act(&self) -> (act: &A)
        ensures
            *act == self.spec_act(),
    {
        &self.act
    }
}

/// The intermediate calculations for an evaluation of [`Full`].
pub struct FullInter<S, const NUM_OUT: usize> {
    /// The weighted sum of each output, bias included.
    pub weighted_sums: [S; NUM_OUT],
    /// The activation function applied to each weighted sum.
    pub outputs: [S; NUM_OUT],
}

impl<S, const NUM_OUT: usize> Intermediate for FullInter<S, NUM_OUT> {
    type Out = [S; NUM_OUT];

    open spec fn spec_output(&self) -> Self::Out {
        self.outputs
    }

    fn output(&self) -> (out: &Self::Out) {
        &self.outputs
    }

    fn into_output(self) -> (out: Self::Out) {
        self.outputs
    }
}

/// The rows of a matrix held in nested arrays.
pub open spec fn grid<S, const N: usize, const M: usize>(m: [[S; N]; M]) -> Seq<Seq<S>> {
    Seq::new(M as nat, |i: int| m@[i]@)
}

/// The weighted sums of a layer: each row of the weights times the inputs,
/// plus the bias.
pub open spec fn layer_sums<S: Scalar>(weights: Seq<Seq<S>>, biases: Seq<S>, inputs: Seq<S>) -> Seq<
    S,
> {
    Seq::new(weights.len(), |i: int| dot(weights[i], inputs).spec_plus(biases[i]))
}

/// The activation function applied to each weighted sum.
pub open spec fn layer_outputs<S, A: Deriv<In = S, Out = S>>(act: &A, sums: Seq<S>) -> Seq<S> {
    Seq::new(sums.len(), |i: int| act.spec_call(&sums[i]))
}

/// The gradients over the weighted sums: each gradient over an output times
/// the derivative of the activation function at the weighted sum.
pub open spec fn layer_grad<S: Scalar, A: Deriv<In = S, Out = S>>(
    act: &A,
    gradients: Seq<S>,
    sums: Seq<S>,
) -> Seq<S> {
    Seq::new(gradients.len(), |i: int| gradients[i].spec_times(act.spec_deriv(&sums[i])))
}

/// The biases after one step of gradient descent.
pub open spec fn layer_stepped_biases<S: Scalar>(biases: Seq<S>, grad: Seq<S>, rate: S) -> Seq<S> {
    Seq::new(biases.len(), |i: int| biases[i].spec_minus(grad[i].spec_times(rate)))
}

/// The weights after one step of gradient descent.
pub open spec fn layer_stepped_weights<S: Scalar>(
    weights: Seq<Seq<S>>,
    inputs: Seq<S>,
    grad: Seq<S>,
    rate: S,
) -> Seq<Seq<S>> {
    Seq::new(
        weights.len(),
        |i: int|
            Seq::new(
                weights[i].len(),
                |j: int|
                    weights[i][j].spec_minus(inputs[j].spec_times(grad[i]).spec_times(rate)),
            ),
    )
}

/// The gradients over the inputs: for each input, the sum over the outputs of
/// weight times gradient.
pub open spec fn layer_input_grad<S: Scalar>(weights: Seq<Seq<S>>, grad: Seq<S>, n_in: nat) -> Seq<
    S,
> {
    Seq::new(n_in, |j: int| dot(column(weights, j), grad))
}

/// The matrix in nested arrays that holds the given rows.
pub open spec fn grid_of<S, const N: usize, const M: usize>(m: Seq<Seq<S>>) -> [[S; N]; M] {
    array_of::<[S; N], M>(Seq::new(M as nat, |i: int| array_of::<S, N>(m[i])))
}

impl<const NUM_IN: usize, const NUM_OUT: usize, A> Network for Full<NUM_IN, NUM_OUT, A> where
    A: Deriv<Out = <A as Deriv>::In>,
    A::In: Scalar,
 {
    type In = [A::In; NUM_IN];

    type Out = [A::In; NUM_OUT];

    type Inter = FullInter<A::In, NUM_OUT>;

    type Rate = A::In;

    open spec fn wf(&self) -> bool {
        NUM_IN <= u32::MAX
    }

    open spec fn spec_intermediate(&self, inputs: &Self::In) -> Self::Inter {
        let sums = layer_sums(grid(self.spec_weights()), self.spec_biases()@, inputs@);
        FullInter {
            weighted_sums: array_of::<A::In, NUM_OUT>(sums),
            outputs: array_of::<A::In, NUM_OUT>(layer_outputs(&self.spec_act(), sums)),
        }
    }

    open spec fn spec_trained(
        &self,
        inputs: &Self::In,
        intermediate: &Self::Inter,
        gradients: &Self::Out,
        learning_rate: A::In,
    ) -> Self {
        let grad = layer_grad(&self.spec_act(), gradients@, intermediate.weighted_sums@);
        Self::with_parts(
            grid_of::<A::In, NUM_IN, NUM_OUT>(
                layer_stepped_weights(grid(self.spec_weights()), inputs@, grad, learning_rate),
            ),
            array_of::<A::In, NUM_OUT>(
                layer_stepped_biases(self.spec_biases()@, grad, learning_rate),
            ),
            self.spec_act(),
        )
    }

    open spec fn spec_train_deriv(
        &self,
        inputs: &Self::In,
        intermediate: &Self::Inter,
        gradients: &Self::Out,
        learning_rate: A::In,
    ) -> Self::In {
        let grad = layer_grad(&self.spec_act(), gradients@, intermediate.weighted_sums@);
        array_of::<A::In, NUM_IN>(
            layer_input_grad(grid(self.spec_weights()), grad, NUM_IN as nat),
        )
    }

    proof fn trained_wf(
        &self,
        inputs: &Self::In,
        intermediate: &Self::Inter,
        gradients: &Self::Out,
        learning_rate: A::In,
    ) {
    }

    fn intermediate(&self, inputs: &Self::In) -> (inter: Self::Inter) {
        let ghost sums = layer_sums(grid(self.weights), self.biases@, inputs@);
        let mut weighted_sums: [A::In; NUM_OUT] = [<A::In as Scalar>::zero();NUM_OUT];
        let mut outputs: [A::In; NUM_OUT] = [<A::In as Scalar>::zero();NUM_OUT];
        let mut i: usize = 0;
        while i < NUM_OUT
            invariant
                i <= NUM_OUT,
                sums == layer_sums(grid(self.weights), self.biases@, inputs@),
                forall|k: int| 0 <= k < i ==> weighted_sums@[k] == sums[k],
                forall|k: int| 0 <= k < i ==> outputs@[k] == self.act.spec_call(&sums[k]),
            decreases NUM_OUT - i,
        {
            // Multiply the matrices to find the weighted sums, and apply bias.
            let sum = dot_product(self.weights[i].as_slice(), inputs.as_slice()).plus(
                self.biases[i],
            );
            weighted_sums[i] = sum;
            // Apply the activation function to the weighted sums.
            outputs[i] = self.act.call(&sum);
            i += 1;
        }
        proof {
            assert(weighted_sums@ =~= sums);
            assert(outputs@ =~= layer_outputs(&self.act, sums));
            lemma_array_of_view::<A::In, NUM_OUT>(weighted_sums);
            lemma_array_of_view::<A::In, NUM_OUT>(outputs);
        }
        FullInter { weighted_sums, outputs }
    }

    fn train_deriv(
        &mut self,
        inputs: &Self::In,
        intermediate: &Self::Inter,
        gradients: &Self::Out,
        learning_rate: A::In,
    ) -> (input_gradients: Self::In) {
        let ghost grad_model = layer_grad(&self.act, gradients@, intermediate.weighted_sums@);
        // Calculate the gradients over the activation
        let mut grad: [A::In; NUM_OUT] = [<A::In as Scalar>::zero();NUM_OUT];
        let mut i: usize = 0;
        while i < NUM_OUT
            invariant
                i <= NUM_OUT,
                self.act == old(self).act,
                forall|k: int|
                    0 <= k < i ==> grad@[k] == gradients@[k].spec_times(
                        self.act.spec_deriv(&intermediate.weighted_sums@[k]),
                    ),
            decreases NUM_OUT - i,
        {
            grad[i] = gradients[i].times(self.act.deriv(&intermediate.weighted_sums[i]));
            i += 1;
        }
        assert(grad@ =~= grad_model);
        // The gradients over the inputs go through the weights as they were
        // when the layer was evaluated.
        let out = self.input_gradients(&grad);
        // Update the biases
        let mut i: usize = 0;
        while i < NUM_OUT
            invariant
                i <= NUM_OUT,
                self.act == old(self).act,
                self.weights == old(self).weights,
                forall|k: int|
                    0 <= k < i ==> self.biases@[k] == old(self).biases@[k].spec_minus(
                        grad@[k].spec_times(learning_rate),
                    ),
                forall|k: int| i <= k < NUM_OUT ==> self.biases@[k] == old(self).biases@[k],
            decreases NUM_OUT - i,
        {
            let b = self.biases[i].minus(grad[i].times(learning_rate));
            self.biases[i] = b;
            i += 1;
        }
        // Calculate the gradients over each weight and update it correspondingly.
        let ghost biases = self.biases;
        let mut j: usize = 0;
        while j < NUM_IN
            invariant
                j <= NUM_IN,
                self.act == old(self).act,
                self.biases == biases,
                forall|r: int, c: int|
                    0 <= r < NUM_OUT && 0 <= c < j ==> #[trigger] self.weights@[r]@[c] == old(
                        self,
                    ).weights@[r]@[c].spec_minus(
                        inputs@[c].spec_times(grad@[r]).spec_times(learning_rate),
                    ),
                forall|r: int, c: int|
                    0 <= r < NUM_OUT && j <= c < NUM_IN ==> #[trigger] self.weights@[r]@[c] == old(
                        self,
                    ).weights@[r]@[c],
            decreases NUM_IN - j,
        {
            let mut i: usize = 0;
            while i < NUM_OUT
                invariant
                    j < NUM_IN,
                    i <= NUM_OUT,
                    self.act == old(self).act,
                    self.biases == biases,
                    forall|r: int, c: int|
                        0 <= r < NUM_OUT && 0 <= c < j ==> #[trigger] self.weights@[r]@[c] == old(
                            self,
                        ).weights@[r]@[c].spec_minus(
                            inputs@[c].spec_times(grad@[r]).spec_times(learning_rate),
                        ),
                    forall|r: int, c: int|
                        0 <= r < NUM_OUT && j < c < NUM_IN ==> #[trigger] self.weights@[r]@[c]
                            == old(self).weights@[r]@[c],
                    forall|r: int|
                        0 <= r < i ==> #[trigger] self.weights@[r]@[j as int] == old(
                            self,
                        ).weights@[r]@[j as int].spec_minus(
                            inputs@[j as int].spec_times(grad@[r]).spec_times(learning_rate),
                        ),
                    forall|r: int|
                        i <= r < NUM_OUT ==> #[trigger] self.weights@[r]@[j as int] == old(
                            self,
                        ).weights@[r]@[j as int],
                decreases NUM_OUT - i,
            {
                let w = self.weights[i][j].minus(inputs[j].times(grad[i]).times(learning_rate));
                self.weights[i][j] = w;
                i += 1;
            }
            j += 1;
        }
        proof {
            let new_w = layer_stepped_weights(
                grid(old(self).weights),
                inputs@,
                grad_model,
                learning_rate,
            );
            let new_b = layer_stepped_biases(old(self).biases@, grad_model, learning_rate);
            assert(self.biases@ =~= new_b);
            lemma_array_of_view::<A::In, NUM_OUT>(self.biases);
            assert forall|r: int| 0 <= r < NUM_OUT implies self.weights@[r] == array_of::<
                A::In,
                NUM_IN,
            >(new_w[r]) by {
                assert(self.weights@[r]@ =~= new_w[r]);
                lemma_array_of_view::<A::In, NUM_IN>(self.weights@[r]);
            }
            assert(self.weights@ =~= Seq::new(
                NUM_OUT as nat,
                |i: int| array_of::<A::In, NUM_IN>(new_w[i]),
            ));
            lemma_array_of_view::<[A::In; NUM_IN], NUM_OUT>(self.weights);
        }
        out
    }
}

impl<const NUM_IN: usize, const NUM_OUT: usize, A> Full<NUM_IN, NUM_OUT, A> where
    A: Deriv<Out = <A as Deriv>::In>,
    A::In: Scalar,
 {
    /// Creates a fully connected layer with the given activation and with weights and biases
    /// generated using the given generator functions: the first is asked for
    /// the weight between an input and an output by their positions, the
    /// second for the bias of an output by its position.
    ///
    /// The weights are generated first, one input after the other, and then
    /// the biases.
    pub fn new<F, G>(activation: A, gen: (F, G)) -> (layer: Self) where
        F: FnMut(usize, usize) -> A::In,
        G: FnMut(usize) -> A::In,

        requires
            NUM_OUT <= u32::MAX,
            forall|j: usize, i: usize| j < NUM_IN && i < NUM_OUT ==> call_requires(gen.0, (j, i)),
            forall|i: usize| i < NUM_OUT ==> call_requires(gen.1, (i,)),
        ensures
            layer.spec_act() == activation,
            forall|i: int, j: int|
                0 <= i < NUM_OUT && 0 <= j < NUM_IN ==> call_ensures(
                    gen.0,
                    (j as usize, i as usize),
                    #[trigger] layer.spec_weights()@[i]@[j],
                ),
            forall|i: int|
                0 <= i < NUM_OUT ==> call_ensures(
                    gen.1,
                    (i as usize,),
                    #[trigger] layer.spec_biases()@[i],
                ),
    {
        let (mut weight_gen, mut bias_gen) = gen;
        let mut weights: [[A::In; NUM_IN]; NUM_OUT] = [[<A::In as Scalar>::zero();NUM_IN];NUM_OUT];
        let mut j: usize = 0;
        while j < NUM_IN
            invariant
                j <= NUM_IN,
                weight_gen == gen.0,
                forall|j: usize, i: usize|
                    j < NUM_IN && i < NUM_OUT ==> call_requires(weight_gen, (j, i)),
                forall|r: int, c: int|
                    0 <= r < NUM_OUT && 0 <= c < j ==> call_ensures(
                        weight_gen,
                        (c as usize, r as usize),
                        #[trigger] weights@[r]@[c],
                    ),
            decreases NUM_IN - j,
        {
            let mut i: usize = 0;
            while i < NUM_OUT
                invariant
                    j < NUM_IN,
                    i <= NUM_OUT,
                    weight_gen == gen.0,
                    forall|j: usize, i: usize|
                        j < NUM_IN && i < NUM_OUT ==> call_requires(weight_gen, (j, i)),
                    forall|r: int, c: int|
                        0 <= r < NUM_OUT && 0 <= c < j ==> call_ensures(
                            weight_gen,
                            (c as usize, r as usize),
                            #[trigger] weights@[r]@[c],
                        ),
                    forall|r: int|
                        0 <= r < i ==> call_ensures(
                            weight_gen,
                            (j, r as usize),
                            #[trigger] weights@[r]@[j as int],
                        ),
                decreases NUM_OUT - i,
            {
                let w = weight_gen(j, i);
                weights[i][j] = w;
                i += 1;
            }
            j += 1;
        }
        let mut biases: Vec<A::In> = Vec::with_capacity(NUM_OUT);
        let mut i: usize = 0;
        while i < NUM_OUT
            invariant
                i <= NUM_OUT,
                bias_gen == gen.1,
                forall|i: usize| i < NUM_OUT ==> call_requires(bias_gen, (i,)),
                biases@.len() == i,
                forall|k: int|
                    0 <= k < i ==> call_ensures(bias_gen, (k as usize,), #[trigger] biases@[k]),
            decreases NUM_OUT - i,
        {
            biases.push(bias_gen(i));
            i += 1;
        }
        match collect_array::<A::In, NUM_OUT>(&biases) {
            Some(biases) => Self { act: activation, weights, biases },
            None => vstd::pervasive::unreached::<Self>(),
        }
    }

    /// The gradients over the inputs, given those over the weighted sums.
    fn input_gradients(&self, grad: &[A::In; NUM_OUT]) -> (out: [A::In; NUM_IN])
        requires
            NUM_IN <= u32::MAX,
        ensures
            out == array_of::<A::In, NUM_IN>(
                layer_input_grad(grid(self.weights), grad@, NUM_IN as nat),
            ),
    {
        // Amount of columns = NUM_IN, size_grad = NUM_OUT
        let mut out: Vec<A::In> = Vec::with_capacity(NUM_IN);
        let mut j: usize = 0;
        while j < NUM_IN
            invariant
                j <= NUM_IN,
                out@.len() == j,
                forall|c: int|
                    0 <= c < j ==> #[trigger] out@[c] == dot(column(grid(self.weights), c), grad@),
            decreases NUM_IN - j,
        {
            let mut sum = <A::In as Scalar>::zero();
            let mut i: usize = 0;
            while i < NUM_OUT
                invariant
                    j < NUM_IN,
                    i <= NUM_OUT,
                    sum == dot_upto(column(grid(self.weights), j as int), grad@, i as nat),
                decreases NUM_OUT - i,
            {
                sum = sum.plus(self.weights[i][j].times(grad[i]));
                i += 1;
            }
            out.push(sum);
            j += 1;
        }
        assert(out@ =~= layer_input_grad(grid(self.weights), grad@, NUM_IN as nat));
        match collect_array::<A::In, NUM_IN>(&out) {
            Some(out) => {
                proof {
                    lemma_array_of_view::<A::In, NUM_IN>(out);
                }
                out
            },
            None => vstd::pervasive::unreached::<[A::In; NUM_IN]>(),
        }
    }
}

/// What a training step leaves of a layer: the same activation function, the
/// weights one step down along their gradients, and the biases likewise.
pub proof fn lemma_trained_parts<const NUM_IN: usize, const NUM_OUT: usize, A>(
    layer: Full<NUM_IN, NUM_OUT, A>,
    inputs: [A::In; NUM_IN],
    intermediate: FullInter<A::In, NUM_OUT>,
    gradients: [A::In; NUM_OUT],
    learning_rate: A::In,
) where A: Deriv<Out = <A as Deriv>::In>, A::In: Scalar
    ensures
        ({
            let trained = layer.spec_trained(&inputs, &intermediate, &gradients, learning_rate);
            let grad = layer_grad(&layer.spec_act(), gradients@, intermediate.weighted_sums@);
            &&& trained.spec_act() == layer.spec_act()
            &&& grid(trained.spec_weights()) == layer_stepped_weights(
                grid(layer.spec_weights()),
                inputs@,
                grad,
                learning_rate,
            )
            &&& trained.spec_biases()@ == layer_stepped_biases(
                layer.spec_biases()@,
                grad,
                learning_rate,
            )
        }),
{
    let trained = layer.spec_trained(&inputs, &intermediate, &gradients, learning_rate);
    let grad = layer_grad(&layer.spec_act(), gradients@, intermediate.weighted_sums@);
    let new_w = layer_stepped_weights(grid(layer.spec_weights()), inputs@, grad, learning_rate);
    let new_b = layer_stepped_biases(layer.spec_biases()@, grad, learning_rate);
    lemma_array_of::<A::In, NUM_OUT>(new_b);
    lemma_array_of::<[A::In; NUM_IN], NUM_OUT>(
        Seq::new(NUM_OUT as nat, |i: int| array_of::<A::In, NUM_IN>(new_w[i])),
    );
    assert forall|i: int| 0 <= i < NUM_OUT implies #[trigger] grid(trained.spec_weights())[i]
        == new_w[i] by {
        lemma_array_of::<A::In, NUM_IN>(new_w[i]);
    }
    assert(grid(trained.spec_weights()) =~= new_w);
}

/// One pass through a layer: the weighted sums plus the biases, and the
/// activation function on each of them.
pub open spec fn pass<S: Scalar, A: Deriv<In = S, Out = S>>(
    weights: Seq<Seq<S>>,
    biases: Seq<S>,
    act: &A,
    inputs: Seq<S>,
) -> Seq<S> {
    Seq::new(weights.len(), |i: int| act.spec_call(&dot(weights[i], inputs).spec_plus(biases[i])))
}

/// The output of a layer is one pass through it.
pub proof fn lemma_layer_output<const NUM_IN: usize, const NUM_OUT: usize, A>(
    layer: Full<NUM_IN, NUM_OUT, A>,
    inputs: [A::In; NUM_IN],
) where A: Deriv<Out = <A as Deriv>::In>, A::In: Scalar
    ensures
        layer.spec_intermediate(&inputs).spec_output()@ == pass(
            grid(layer.spec_weights()),
            layer.spec_biases()@,
            &layer.spec_act(),
            inputs@,
        ),
{
    let sums = layer_sums(grid(layer.spec_weights()), layer.spec_biases()@, inputs@);
    lemma_array_of::<A::In, NUM_OUT>(layer_outputs(&layer.spec_act(), sums));
    assert(layer_outputs(&layer.spec_act(), sums) =~= pass(
        grid(layer.spec_weights()),
        layer.spec_biases()@,
        &layer.spec_act(),
        inputs@,
    ));
}

/// Two layers in a chain compute two passes, one after the other. With the
/// same layer in both places, this is the layer composed with itself.
pub proof fn lemma_chained_layers<const N0: usize, const N1: usize, const N2: usize, A, B>(
    first: Full<N0, N1, A>,
    second: Full<N1, N2, B>,
    inputs: [A::In; N0],
) where
    A: Deriv<Out = <A as Deriv>::In>,
    A::In: Scalar,
    B: Deriv<In = <A as Deriv>::In, Out = <A as Deriv>::In>,

    ensures
        (Chain { first, second }).spec_intermediate(&inputs).spec_output()@ == pass(
            grid(second.spec_weights()),
            second.spec_biases()@,
            &second.spec_act(),
            pass(grid(first.spec_weights()), first.spec_biases()@, &first.spec_act(), inputs@),
        ),
{
    let middle = first.spec_intermediate(&inputs).spec_output();
    lemma_layer_output(first, inputs);
    lemma_layer_output(second, middle);
}

} // verus!
