//! A multilayer perceptron over layers of any size.

use vstd::prelude::*;
use crate::scalar::Scalar;
use crate::deriv::{Deriv, NDeriv};
use crate::full::pass;
use crate::linalg::{column, dot, dot_product, mat_vec, vec_mat};

verus! {

/// What a generator is asked for while a network is built.
pub enum GenReq {
    /// Indicates that the generator should return a weight value.
    Weight {
        /// Index of the left layer in the range [0, n-2] where n is the number of layers in the
        /// network.
        l: usize,
        /// Index of the left node.
        i_l: usize,
        /// Index of the right node.
        i_n: usize,
    },
    /// Indicates that the generator should return a bias value.
    Bias {
        /// Index of the layer the node is in, in the range [1, n-1] where n is the number of
        /// layers in the network.
        l: usize,
        /// Index of the node.
        i_l: usize,
    },
}

/// Why a network could not be built or used.
#[derive(Debug, PartialEq, Eq, Structural)]
pub enum Error {
    /// The network should have 2 or more layers.
    WrongSize,
    /// The layer with this index should have 1 or more nodes.
    WrongLayerSize(usize),
    /// The number of inputs is incorrect.
    WrongInputSize,
}

/// Whether `size` describes a network: at least an input and an output layer,
/// and no empty layer.
pub open spec fn valid_sizes(size: Seq<usize>) -> bool {
    size.len() >= 2 && forall|l: int| 0 <= l < size.len() ==> size[l] >= 1
}

/// Whether a network of the given layer sizes asks its generator for `req`.
pub open spec fn valid_request(size: Seq<usize>, req: GenReq) -> bool {
    match req {
        GenReq::Weight { l, i_l, i_n } => l + 1 < size.len() && i_l < size[l as int] && i_n
            < size[l + 1],
        GenReq::Bias { l, i_l } => 1 <= l < size.len() && i_l < size[l as int],
    }
}

/// What a vector of rows holds.
pub open spec fn rows<S>(v: Vec<Vec<S>>) -> Seq<Seq<S>> {
    Seq::new(v@.len(), |i: int| v@[i]@)
}

/// What a vector of matrices, each a vector of rows, holds.
pub open spec fn matrices<S>(v: Vec<Vec<Vec<S>>>) -> Seq<Seq<Seq<S>>> {
    Seq::new(v@.len(), |l: int| rows(v@[l]))
}

/// The parameters of a network as plain sequences.
///
/// `weights[l][i][j]` is the weight from node `j` of layer `l` to node `i` of
/// layer `l + 1`, and `biases[l][i]` is the bias of node `i` of layer `l + 1`.
pub struct NetView<S> {
    /// The number of nodes in each layer, input layer first.
    pub size: Seq<usize>,
    /// One matrix per pair of neighbouring layers, given by its rows.
    pub weights: Seq<Seq<Seq<S>>>,
    /// One vector per layer but the input layer.
    pub biases: Seq<Seq<S>>,
}

impl<S> NetView<S> {
    /// Every matrix and vector has the shape that the layer sizes call for.
    pub open spec fn wf(self) -> bool {
        &&& valid_sizes(self.size)
        &&& self.weights.len() == self.size.len() - 1
        &&& self.biases.len() == self.size.len() - 1
        &&& forall|l: int|
            0 <= l < self.size.len() - 1 ==> (#[trigger] self.weights[l]).len() == self.size[l + 1]
        &&& forall|l: int|
            0 <= l < self.size.len() - 1 ==> (#[trigger] self.biases[l]).len() == self.size[l + 1]
        &&& forall|l: int, i: int|
            0 <= l < self.size.len() - 1 && 0 <= i < self.size[l + 1] ==> (
            #[trigger] self.weights[l][i]).len() == self.size[l]
    }
}

/// The activations of a layer: the activation function applied to each
/// weighted sum plus its bias.
pub open spec fn activated<S: Scalar, A: Deriv<In = S, Out = S>>(
    activation: &A,
    sums: Seq<S>,
    biases: Seq<S>,
) -> Seq<S> {
    Seq::new(sums.len(), |i: int| activation.spec_call(&sums[i].spec_plus(biases[i])))
}

/// What an evaluation keeps, as plain sequences.
pub struct InterView<S> {
    /// Activation of each node, starting from the input layer and including the output layer.
    pub activs: Seq<Seq<S>>,
    /// Weighted sums of each node, starting from the first hidden layer.
    pub sums: Seq<Seq<S>>,
}

impl<S: Scalar> NetView<S> {
    /// The activations of layer `l` on the given inputs.
    pub open spec fn activs_at<A: Deriv<In = S, Out = S>>(
        self,
        activation: &A,
        inputs: Seq<S>,
        l: nat,
    ) -> Seq<S>
        decreases l,
    {
        if l == 0 {
            inputs
        } else {
            activated(
                activation,
                mat_vec(self.weights[l - 1], self.activs_at(activation, inputs, (l - 1) as nat)),
                self.biases[l - 1],
            )
        }
    }

    /// The weighted sums that layer `l` hands to layer `l + 1`, before the
    /// biases are added.
    pub open spec fn sums_at<A: Deriv<In = S, Out = S>>(
        self,
        activation: &A,
        inputs: Seq<S>,
        l: nat,
    ) -> Seq<S> {
        mat_vec(self.weights[l as int], self.activs_at(activation, inputs, l))
    }

    /// The outputs of the network on the given inputs.
    pub open spec fn output<A: Deriv<In = S, Out = S>>(self, activation: &A, inputs: Seq<S>) -> Seq<
        S,
    > {
        self.activs_at(activation, inputs, (self.size.len() - 1) as nat)
    }

    /// Everything that an evaluation on the given inputs keeps.
    pub open spec fn record<A: Deriv<In = S, Out = S>>(
        self,
        activation: &A,
        inputs: Seq<S>,
    ) -> InterView<S> {
        InterView {
            activs: Seq::new(
                self.size.len(),
                |l: int| self.activs_at(activation, inputs, l as nat),
            ),
            sums: Seq::new(
                (self.size.len() - 1) as nat,
                |l: int| self.sums_at(activation, inputs, l as nat),
            ),
        }
    }

    /// Whether a record has the shape of an evaluation of this network.
    pub open spec fn fits(self, inter: InterView<S>) -> bool {
        &&& inter.activs.len() == self.size.len()
        &&& inter.sums.len() == self.size.len() - 1
        &&& forall|l: int|
            0 <= l < self.size.len() ==> (#[trigger] inter.activs[l]).len() == self.size[l]
        &&& forall|l: int|
            0 <= l < self.size.len() - 1 ==> (#[trigger] inter.sums[l]).len() == self.size[l + 1]
    }

    /// Evaluation gives every layer as many activations as it has nodes.
    pub proof fn lemma_activs_len<A: Deriv<In = S, Out = S>>(
        self,
        activation: &A,
        inputs: Seq<S>,
        l: nat,
    )
        requires
            self.wf(),
            inputs.len() == self.size[0],
            l < self.size.len(),
        ensures
            self.activs_at(activation, inputs, l).len() == self.size[l as int],
            l + 1 < self.size.len() ==> self.sums_at(activation, inputs, l).len()
                == self.size[l as int + 1],
        decreases l,
    {
        if l > 0 {
            self.lemma_activs_len(activation, inputs, (l - 1) as nat);
        }
    }

    /// Every layer computes what a fully connected layer with the same
    /// weights, biases and activation function computes on the activations of
    /// the layer before it.
    pub proof fn lemma_layer_is_a_pass<A: Deriv<In = S, Out = S>>(
        self,
        activation: &A,
        inputs: Seq<S>,
        l: nat,
    )
        requires
            l + 1 < self.size.len(),
        ensures
            self.activs_at(activation, inputs, l + 1) == pass(
                self.weights[l as int],
                self.biases[l as int],
                activation,
                self.activs_at(activation, inputs, l),
            ),
    {
        let before = self.activs_at(activation, inputs, l);
        assert(self.activs_at(activation, inputs, l + 1) =~= pass(
            self.weights[l as int],
            self.biases[l as int],
            activation,
            before,
        ));
    }

    /// The record of an evaluation fits the network that made it.
    pub proof fn lemma_record_fits<A: Deriv<In = S, Out = S>>(self, activation: &A, inputs: Seq<S>)
        requires
            self.wf(),
            inputs.len() == self.size[0],
        ensures
            self.fits(self.record(activation, inputs)),
    {
        let inter = self.record(activation, inputs);
        assert forall|l: int| 0 <= l < self.size.len() implies (#[trigger] inter.activs[l]).len()
            == self.size[l] by {
            self.lemma_activs_len(activation, inputs, l as nat);
        }
        assert forall|l: int| 0 <= l < self.size.len() - 1 implies (#[trigger] inter.sums[l]).len()
            == self.size[l + 1] by {
            self.lemma_activs_len(activation, inputs, l as nat);
        }
    }
}

/// The derivatives of an error function over each of the first `n` outputs.
pub open spec fn error_derivs<S, E: NDeriv<In = Vec<S>, Out = S>>(
    error: &E,
    outputs: Vec<S>,
    n: nat,
) -> Seq<S> {
    Seq::new(n, |p: int| error.spec_deriv(&outputs, p as usize))
}

/// Derivatives over the activations of a layer turned into derivatives over
/// its weighted sums: each is multiplied by the derivative of the activation
/// function at the stored weighted sum.
pub open spec fn scaled<S: Scalar, A: Deriv<In = S, Out = S>>(
    activation: &A,
    derivs: Seq<S>,
    sums: Seq<S>,
) -> Seq<S> {
    Seq::new(derivs.len(), |i: int| derivs[i].spec_times(activation.spec_deriv(&sums[i])))
}

/// The biases of a layer after one step of gradient descent.
pub open spec fn stepped_biases<S: Scalar>(biases: Seq<S>, delta: Seq<S>, rate: S) -> Seq<S> {
    Seq::new(biases.len(), |i: int| biases[i].spec_minus(delta[i].spec_times(rate)))
}

/// The weights into a layer after one step of gradient descent, where `activs`
/// are the activations of the layer before it.
pub open spec fn stepped_weights<S: Scalar>(
    weights: Seq<Seq<S>>,
    delta: Seq<S>,
    activs: Seq<S>,
    rate: S,
) -> Seq<Seq<S>> {
    Seq::new(
        weights.len(),
        |i: int|
            Seq::new(
                weights[i].len(),
                |j: int|
                    weights[i][j].spec_minus(delta[i].spec_times(activs[j]).spec_times(rate)),
            ),
    )
}

impl<S: Scalar> NetView<S> {
    /// The derivatives of the error over the activations of layer `l`, where
    /// `top` holds those over the outputs. They are found layer by layer from
    /// the output layer down, through the weights as they are in `self`.
    pub open spec fn derivs_at<A: Deriv<In = S, Out = S>>(
        self,
        inter: InterView<S>,
        activation: &A,
        top: Seq<S>,
        l: int,
    ) -> Seq<S>
        decreases self.size.len() - l,
    {
        if 0 <= l < self.size.len() - 1 {
            vec_mat(
                scaled(
                    activation,
                    self.derivs_at(inter, activation, top, l + 1),
                    inter.sums[l],
                ),
                self.weights[l],
                self.size[l] as nat,
            )
        } else {
            top
        }
    }

    /// The derivatives of the error over the weighted sums of layer `l + 1`.
    pub open spec fn delta<A: Deriv<In = S, Out = S>>(
        self,
        inter: InterView<S>,
        activation: &A,
        top: Seq<S>,
        l: int,
    ) -> Seq<S> {
        scaled(activation, self.derivs_at(inter, activation, top, l + 1), inter.sums[l])
    }

    /// The network after one backpropagation cycle.
    pub open spec fn trained<A: Deriv<In = S, Out = S>>(
        self,
        inter: InterView<S>,
        activation: &A,
        top: Seq<S>,
        rate: S,
    ) -> NetView<S> {
        NetView {
            size: self.size,
            weights: Seq::new(
                self.weights.len(),
                |l: int|
                    stepped_weights(
                        self.weights[l],
                        self.delta(inter, activation, top, l),
                        inter.activs[l],
                        rate,
                    ),
            ),
            biases: Seq::new(
                self.biases.len(),
                |l: int|
                    stepped_biases(self.biases[l], self.delta(inter, activation, top, l), rate),
            ),
        }
    }

    /// The derivatives over a layer are as many as the layer has nodes.
    pub proof fn lemma_derivs_len<A: Deriv<In = S, Out = S>>(
        self,
        inter: InterView<S>,
        activation: &A,
        top: Seq<S>,
        l: int,
    )
        requires
            self.wf(),
            top.len() == self.size[self.size.len() - 1],
            0 <= l < self.size.len(),
        ensures
            self.derivs_at(inter, activation, top, l).len() == self.size[l],
        decreases self.size.len() - l,
    {
        if l < self.size.len() - 1 {
            self.lemma_derivs_len(inter, activation, top, l + 1);
        }
    }

    /// A backpropagation cycle keeps the shape of the network.
    pub proof fn lemma_trained_wf<A: Deriv<In = S, Out = S>>(
        self,
        inter: InterView<S>,
        activation: &A,
        top: Seq<S>,
        rate: S,
    )
        requires
            self.wf(),
        ensures
            self.trained(inter, activation, top, rate).wf(),
            self.trained(inter, activation, top, rate).size == self.size,
    {
        let t = self.trained(inter, activation, top, rate);
        assert forall|l: int, i: int|
            0 <= l < t.size.len() - 1 && 0 <= i < t.size[l + 1] implies (
        #[trigger] t.weights[l][i]).len() == t.size[l] by {
            assert(self.weights[l][i].len() == self.size[l]);
        }
    }
}

/// Intermediate values of an evaluation of the nnetwork.
#[derive(Clone, Debug)]
pub struct Intermediate<S> {
    /// Activation of each node, starting from the input layer and including the output layer.
    pub activs: Vec<Vec<S>>,
    /// Weighted sums of each node, starting from the first hidden layer.
    pub sums: Vec<Vec<S>>,
}

impl<S> View for Intermediate<S> {
    type V = InterView<S>;

    open spec fn view(&self) -> InterView<S> {
        InterView { activs: rows(self.activs), sums: rows(self.sums) }
    }
}

/// A fully-connected neural network with any number of layers.
#[derive(Debug, Clone, PartialEq)]
pub struct NNetwork<S> {
    size: Vec<usize>,
    /// The weights between each layer. [0, n-1]
    weights: Vec<Vec<Vec<S>>>,
    /// The biases of each node in each layer, starting from the first hidden layer. [1, n]
    biases: Vec<Vec<S>>,
}

impl<S> View for NNetwork<S> {
    type V = NetView<S>;

    closed spec fn view(&self) -> NetView<S> {
        NetView { size: self.size@, weights: matrices(self.weights), biases: rows(self.biases) }
    }
}

/// Whether every parameter of `net` is a value that `gen` may return for the
/// request that names the parameter's place.
pub open spec fn generated_by<S, F: Fn(GenReq) -> S>(net: NetView<S>, gen: F) -> bool {
    &&& forall|l: int, i: int, j: int|
        0 <= l < net.size.len() - 1 && 0 <= i < net.size[l + 1] && 0 <= j < net.size[l]
            ==> call_ensures(
            gen,
            (GenReq::Weight { l: l as usize, i_l: j as usize, i_n: i as usize },),
            #[trigger] net.weights[l][i][j],
        )
    &&& forall|l: int, i: int|
        0 <= l < net.size.len() - 1 && 0 <= i < net.size[l + 1] ==> call_ensures(
            gen,
            (GenReq::Bias { l: (l + 1) as usize, i_l: i as usize },),
            #[trigger] net.biases[l][i],
        )
}

/// Looks for the first empty layer.
fn first_empty_layer(size: &[usize]) -> (r: Option<usize>)
    ensures
        match r {
            Some(l) => l < size@.len() && size@[l as int] == 0 && forall|k: int|
                0 <= k < l ==> size@[k] >= 1,
            None => forall|k: int| 0 <= k < size@.len() ==> size@[k] >= 1,
        },
{
    let mut l: usize = 0;
    while l < size.len()
        invariant
            l <= size@.len(),
            forall|k: int| 0 <= k < l ==> size@[k] >= 1,
        decreases size@.len() - l,
    {
        if size[l] < 1 {
            return Some(l);
        }
        l += 1;
    }
    None
}

/// Builds the matrix between layer `l` and the next one, asking the generator
/// for one column after the other.
fn generate_weights<S: Scalar, F: Fn(GenReq) -> S>(size: &[usize], l: usize, gen: &F) -> (m: Vec<
    Vec<S>,
>)
    requires
        valid_sizes(size@),
        l + 1 < size@.len(),
        forall|req: GenReq| valid_request(size@, req) ==> call_requires(*gen, (req,)),
    ensures
        m@.len() == size@[l + 1],
        forall|i: int| 0 <= i < m@.len() ==> (#[trigger] m@[i])@.len() == size@[l as int],
        forall|i: int, j: int|
            0 <= i < size@[l + 1] && 0 <= j < size@[l as int] ==> call_ensures(
                *gen,
                (GenReq::Weight { l, i_l: j as usize, i_n: i as usize },),
                #[trigger] m@[i]@[j],
            ),
{
    let n = size.len();
    assert(l + 1 < n);
    let n_rows = size[l + 1];
    let n_cols = size[l];
    let mut m: Vec<Vec<S>> = Vec::new();
    let mut r: usize = 0;
    while r < n_rows
        invariant
            r <= n_rows,
            m@.len() == r,
            forall|i: int| 0 <= i < r ==> (#[trigger] m@[i])@.len() == n_cols,
        decreases n_rows - r,
    {
        let mut row: Vec<S> = Vec::new();
        let mut c: usize = 0;
        while c < n_cols
            invariant
                c <= n_cols,
                row@.len() == c,
            decreases n_cols - c,
        {
            row.push(S::zero());
            c += 1;
        }
        m.push(row);
        r += 1;
    }
    let mut j: usize = 0;
    while j < n_cols
        invariant
            valid_sizes(size@),
            l + 1 < size@.len(),
            n_rows == size@[l + 1],
            n_cols == size@[l as int],
            forall|req: GenReq| valid_request(size@, req) ==> call_requires(*gen, (req,)),
            j <= n_cols,
            m@.len() == n_rows,
            forall|i: int| 0 <= i < n_rows ==> (#[trigger] m@[i])@.len() == n_cols,
            forall|i: int, k: int|
                0 <= i < n_rows && 0 <= k < j ==> call_ensures(
                    *gen,
                    (GenReq::Weight { l, i_l: k as usize, i_n: i as usize },),
                    #[trigger] m@[i]@[k],
                ),
        decreases n_cols - j,
    {
        let mut i: usize = 0;
        while i < n_rows
            invariant
                valid_sizes(size@),
                l + 1 < size@.len(),
                n_rows == size@[l + 1],
                n_cols == size@[l as int],
                forall|req: GenReq| valid_request(size@, req) ==> call_requires(*gen, (req,)),
                j < n_cols,
                i <= n_rows,
                m@.len() == n_rows,
                forall|r: int| 0 <= r < n_rows ==> (#[trigger] m@[r])@.len() == n_cols,
                forall|r: int, k: int|
                    0 <= r < n_rows && 0 <= k < j ==> call_ensures(
                        *gen,
                        (GenReq::Weight { l, i_l: k as usize, i_n: r as usize },),
                        #[trigger] m@[r]@[k],
                    ),
                forall|r: int|
                    0 <= r < i ==> call_ensures(
                        *gen,
                        (GenReq::Weight { l, i_l: j, i_n: r as usize },),
                        #[trigger] m@[r]@[j as int],
                    ),
            decreases n_rows - i,
        {
            let req = GenReq::Weight { l, i_l: j, i_n: i };
            assert(valid_request(size@, req));
            let w = gen(req);
            m[i][j] = w;
            i += 1;
        }
        j += 1;
    }
    m
}

/// Builds the bias vector of layer `l`.
fn generate_biases<S: Scalar, F: Fn(GenReq) -> S>(size: &[usize], l: usize, gen: &F) -> (b: Vec<S>)
    requires
        valid_sizes(size@),
        1 <= l < size@.len(),
        forall|req: GenReq| valid_request(size@, req) ==> call_requires(*gen, (req,)),
    ensures
        b@.len() == size@[l as int],
        forall|i: int|
            0 <= i < size@[l as int] ==> call_ensures(
                *gen,
                (GenReq::Bias { l, i_l: i as usize },),
                #[trigger] b@[i],
            ),
{
    let n = size[l];
    let mut layer: Vec<S> = Vec::with_capacity(n);
    let mut i: usize = 0;
    while i < n
        invariant
            valid_sizes(size@),
            1 <= l < size@.len(),
            n == size@[l as int],
            forall|req: GenReq| valid_request(size@, req) ==> call_requires(*gen, (req,)),
            i <= n,
            layer@.len() == i,
            forall|k: int|
                0 <= k < i ==> call_ensures(
                    *gen,
                    (GenReq::Bias { l, i_l: k as usize },),
                    #[trigger] layer@[k],
                ),
        decreases n - i,
    {
        let req = GenReq::Bias { l, i_l: i };
        assert(valid_request(size@, req));
        layer.push(gen(req));
        i += 1;
    }
    layer
}

/// Copies a slice of layer sizes into a vector.
fn copy_sizes(size: &[usize]) -> (v: Vec<usize>)
    ensures
        v@ == size@,
{
    let mut v: Vec<usize> = Vec::with_capacity(size.len());
    let mut i: usize = 0;
    while i < size.len()
        invariant
            i <= size@.len(),
            v@ == size@.take(i as int),
        decreases size@.len() - i,
    {
        v.push(size[i]);
        i += 1;
    }
    v
}

impl<S: Scalar> NNetwork<S> {
    // Note: #rows is the size of the next layer, #cols is the size of this layer.
    //       i denotes the element in the output vector, j the element in the input vector.
    /// Creates a new fully-connected neural network with the given size and generator function.
    /// The network should have at least an input and output layer, and no layer may be empty.
    ///
    /// The generator is asked for all the weights first, matrix by matrix and
    /// column by column, and then for the biases, layer by layer.
    pub fn new<F: Fn(GenReq) -> S>(size: &[usize], gen: F) -> (r: Result<Self, Error>)
        requires
            forall|req: GenReq| valid_request(size@, req) ==> call_requires(gen, (req,)),
        ensures
            r is Ok <==> valid_sizes(size@),
            match r {
                Ok(net) => valid_sizes(size@) && net@.wf() && net@.size == size@ && generated_by(
                    net@,
                    gen,
                ),
                Err(Error::WrongSize) => size@.len() < 2,
                Err(Error::WrongLayerSize(l)) => size@.len() >= 2 && l < size@.len() && size@[l as int]
                    == 0 && forall|k: int| 0 <= k < l ==> size@[k] >= 1,
                Err(Error::WrongInputSize) => false,
            },
    {
        if size.len() < 2 {
            return Err(Error::WrongSize);
        }
        if let Some(l) = first_empty_layer(size) {
            return Err(Error::WrongLayerSize(l));
        }
        let n = size.len();
        let mut weights: Vec<Vec<Vec<S>>> = Vec::with_capacity(n - 1);
        let mut l: usize = 0;
        while l < n - 1
            invariant
                valid_sizes(size@),
                n == size@.len(),
                forall|req: GenReq| valid_request(size@, req) ==> call_requires(gen, (req,)),
                l <= n - 1,
                weights@.len() == l,
                forall|k: int| 0 <= k < l ==> (#[trigger] weights@[k])@.len() == size@[k + 1],
                forall|k: int, i: int|
                    0 <= k < l && 0 <= i < size@[k + 1] ==> (#[trigger] weights@[k]@[i])@.len()
                        == size@[k],
                forall|k: int, i: int, j: int|
                    0 <= k < l && 0 <= i < size@[k + 1] && 0 <= j < size@[k] ==> call_ensures(
                        gen,
                        (GenReq::Weight { l: k as usize, i_l: j as usize, i_n: i as usize },),
                        #[trigger] weights@[k]@[i]@[j],
                    ),
            decreases n - 1 - l,
        {
            let m = generate_weights(size, l, &gen);
            weights.push(m);
            l += 1;
        }
        let mut biases: Vec<Vec<S>> = Vec::with_capacity(n - 1);
        let mut l: usize = 1;
        while l < n
            invariant
                valid_sizes(size@),
                n == size@.len(),
                forall|req: GenReq| valid_request(size@, req) ==> call_requires(gen, (req,)),
                1 <= l <= n,
                biases@.len() == l - 1,
                forall|k: int| 0 <= k < l - 1 ==> (#[trigger] biases@[k])@.len() == size@[k + 1],
                forall|k: int, i: int|
                    0 <= k < l - 1 && 0 <= i < size@[k + 1] ==> call_ensures(
                        gen,
                        (GenReq::Bias { l: (k + 1) as usize, i_l: i as usize },),
                        #[trigger] biases@[k]@[i],
                    ),
            decreases n - l,
        {
            let layer = generate_biases(size, l, &gen);
            biases.push(layer);
            l += 1;
        }
        let size = copy_sizes(size);
        let net = Self { size, weights, biases };
        Ok(net)
    }

    /// Convenience method to get a bias.
    pub fn bias(&self, layer: usize, index: usize) -> (r: Option<S>)
        ensures
            r == if 1 <= layer <= self@.biases.len() && index < self@.biases[layer - 1].len() {
                Some(self@.biases[layer - 1][index as int])
            } else {
                None
            },
    {
        if layer < 1 || layer - 1 >= self.biases.len() {
            None
        } else if index >= self.biases[layer - 1].len() {
            None
        } else {
            Some(self.biases[layer - 1][index])
        }
    }

    /// Convenience method to get a weight.
    pub fn weight(&self, layer: usize, i_cur: usize, i_next: usize) -> (r: Option<S>)
        ensures
            r == if layer < self@.weights.len() && i_next < self@.weights[layer as int].len()
                && i_cur < self@.weights[layer as int][i_next as int].len() {
                Some(self@.weights[layer as int][i_next as int][i_cur as int])
            } else {
                None
            },
    {
        if layer >= self.weights.len() {
            None
        } else if i_next >= self.weights[layer].len() {
            None
        } else if i_cur >= self.weights[layer][i_next].len() {
            None
        } else {
            Some(self.weights[layer][i_next][i_cur])
        }
    }

    /// The number of rows and columns of the weight matrix between `layer`
    /// and the next one: the size of the next layer, and the size of `layer`.
    pub fn shape(&self, layer: usize) -> (r: Option<(usize, usize)>)
        requires
            self@.wf(),
        ensures
            r == if layer + 1 < self@.size.len() {
                Some((self@.size[layer + 1], self@.size[layer as int]))
            } else {
                None
            },
    {
        if layer >= self.weights.len() {
            None
        } else {
            assert(self@.weights[layer as int][0].len() == self@.size[layer as int]);
            Some((self.weights[layer].len(), self.weights[layer][0].len()))
        }
    }

    /// Tells whether `inputs` has one value for each node of the input layer.
    pub fn check_inputs(&self, inputs: &Vec<S>) -> (r: Result<(), Error>)
        requires
            self@.wf(),
        ensures
            r == if inputs@.len() == self@.size[0] {
                Ok::<(), Error>(())
            } else {
                Err::<(), Error>(Error::WrongInputSize)
            },
    {
        if inputs.len() == self.size[0] {
            Ok(())
        } else {
            Err(Error::WrongInputSize)
        }
    }

    /// The weighted sums that layer `l` hands to the next layer.
    fn weighted_sums(&self, l: usize, activ: &Vec<S>) -> (sums: Vec<S>)
        requires
            self@.wf(),
            l + 1 < self@.size.len(),
            activ@.len() == self@.size[l as int],
        ensures
            sums@ == mat_vec(self@.weights[l as int], activ@),
    {
        let m = &self.weights[l];
        let mut sums: Vec<S> = Vec::with_capacity(m.len());
        let mut i: usize = 0;
        while i < m.len()
            invariant
                self@.wf(),
                l + 1 < self@.size.len(),
                activ@.len() == self@.size[l as int],
                m == self.weights@[l as int],
                i <= m@.len(),
                sums@.len() == i,
                forall|k: int| 0 <= k < i ==> #[trigger] sums@[k] == dot(m@[k]@, activ@),
            decreases m@.len() - i,
        {
            assert(self@.weights[l as int][i as int] == m@[i as int]@);
            sums.push(dot_product(m[i].as_slice(), activ.as_slice()));
            i += 1;
        }
        sums
    }

    /// Adds the biases of layer `l + 1` to the weighted sums and applies the
    /// activation function.
    fn activate<A: Deriv<In = S, Out = S>>(&self, l: usize, sums: &Vec<S>, activation: &A) -> (activ:
        Vec<S>)
        requires
            self@.wf(),
            l + 1 < self@.size.len(),
            sums@.len() == self@.size[l + 1],
        ensures
            activ@ == activated(activation, sums@, self@.biases[l as int]),
    {
        let b = &self.biases[l];
        assert(self@.biases[l as int] == b@);
        let mut activ: Vec<S> = Vec::with_capacity(sums.len());
        let mut i: usize = 0;
        while i < sums.len()
            invariant
                b@.len() == sums@.len(),
                i <= sums@.len(),
                activ@.len() == i,
                forall|k: int|
                    0 <= k < i ==> #[trigger] activ@[k] == activation.spec_call(
                        &sums@[k].spec_plus(b@[k]),
                    ),
            decreases sums@.len() - i,
        {
            let x = sums[i].plus(b[i]);
            activ.push(activation.call(&x));
            i += 1;
        }
        activ
    }

    /// Evaluates the network and, if `keep` is set, stores intermediate values:
    /// the activations of every layer but the last, and all the weighted sums.
    fn eval_inter<A: Deriv<In = S, Out = S>>(&self, inputs: Vec<S>, activation: &A, keep: bool) -> (r:
        (Vec<S>, Vec<Vec<S>>, Vec<Vec<S>>))
        requires
            self@.wf(),
            inputs@.len() == self@.size[0],
        ensures
            r.0@ == self@.output(activation, inputs@),
            keep ==> rows(r.1) == self@.record(activation, inputs@).activs.drop_last(),
            keep ==> rows(r.2) == self@.record(activation, inputs@).sums,
            !keep ==> r.1@.len() == 0 && r.2@.len() == 0,
    {
        let ghost x = inputs@;
        let n = self.size.len();
        let mut activs: Vec<Vec<S>> = Vec::new();
        let mut sums: Vec<Vec<S>> = Vec::new();
        let mut activ = inputs;
        // i specifies from which layer the input is taken.
        let mut i: usize = 0;
        while i < n - 1
            invariant
                self@.wf(),
                n == self@.size.len(),
                x.len() == self@.size[0],
                i <= n - 1,
                activ@ == self@.activs_at(activation, x, i as nat),
                activ@.len() == self@.size[i as int],
                keep ==> activs@.len() == i && sums@.len() == i,
                keep ==> forall|l: int|
                    0 <= l < i ==> (#[trigger] activs@[l])@ == self@.activs_at(
                        activation,
                        x,
                        l as nat,
                    ),
                keep ==> forall|l: int|
                    0 <= l < i ==> (#[trigger] sums@[l])@ == self@.sums_at(activation, x, l as nat),
                !keep ==> activs@.len() == 0 && sums@.len() == 0,
            decreases n - 1 - i,
        {
            // Calculate with weights
            let weighted_sum = self.weighted_sums(i, &activ);
            // Calculate with biases and activation
            let next = self.activate(i, &weighted_sum, activation);
            proof {
                self@.lemma_activs_len(activation, x, (i + 1) as nat);
            }
            if keep {
                activs.push(activ);
                sums.push(weighted_sum);
            }
            activ = next;
            i += 1;
        }
        (activ, activs, sums)
    }

    /// Evaluates the nnetwork and returns intermediate computations as a tuple (activations,
    /// weighted sums). The inputs of the nnetwork are the first entry in activations, and the
    /// outputs the last.
    pub fn eval_intermediate<A: Deriv<In = S, Out = S>>(&self, inputs: Vec<S>, activation: &A) -> (inter:
        Intermediate<S>)
        requires
            self@.wf(),
            inputs@.len() == self@.size[0],
        ensures
            inter@ == self@.record(activation, inputs@),
            self@.fits(inter@),
    {
        proof {
            self@.lemma_record_fits(activation, inputs@);
        }
        let (res, mut activs, sums) = self.eval_inter(inputs, activation, true);
        let ghost kept = rows(activs);
        activs.push(res);
        let inter = Intermediate { activs, sums };
        proof {
            let model = self@.record(activation, inputs@);
            assert(kept == model.activs.drop_last());
            assert forall|l: int| 0 <= l < model.activs.len() implies inter@.activs[l]
                == model.activs[l] by {
                if l < model.activs.len() - 1 {
                    assert(inter@.activs[l] == kept[l]);
                }
            }
            assert(inter@.activs =~= model.activs);
        }
        inter
    }

    /// Evaluates the network and outputs the activations of the last layer.
    pub fn eval<A: Deriv<In = S, Out = S>>(&self, inputs: Vec<S>, activation: &A) -> (out: Vec<S>)
        requires
            self@.wf(),
            inputs@.len() == self@.size[0],
        ensures
            out@ == self@.output(activation, inputs@),
    {
        self.eval_inter(inputs, activation, false).0
    }
    /// Tells whether `intermediate` has the shape of an evaluation of this
    /// network.
    pub fn accepts(&self, intermediate: &Intermediate<S>) -> (r: bool)
        requires
            self@.wf(),
        ensures
            r == self@.fits(intermediate@),
    {
        let n = self.size.len();
        if intermediate.activs.len() != n || intermediate.sums.len() != n - 1 {
            return false;
        }
        let mut l: usize = 0;
        while l < n
            invariant
                n == self@.size.len(),
                intermediate@.activs.len() == n,
                l <= n,
                forall|k: int|
                    0 <= k < l ==> (#[trigger] intermediate@.activs[k]).len() == self@.size[k],
            decreases n - l,
        {
            if intermediate.activs[l].len() != self.size[l] {
                assert(intermediate@.activs[l as int].len() != self@.size[l as int]);
                return false;
            }
            l += 1;
        }
        let mut l: usize = 0;
        while l < n - 1
            invariant
                n == self@.size.len(),
                n >= 2,
                intermediate@.sums.len() == n - 1,
                l <= n - 1,
                forall|k: int|
                    0 <= k < n ==> (#[trigger] intermediate@.activs[k]).len() == self@.size[k],
                forall|k: int|
                    0 <= k < l ==> (#[trigger] intermediate@.sums[k]).len() == self@.size[k + 1],
            decreases n - 1 - l,
        {
            if intermediate.sums[l].len() != self.size[l + 1] {
                assert(intermediate@.sums[l as int].len() != self@.size[l + 1]);
                return false;
            }
            l += 1;
        }
        true
    }

    /// Takes one step of gradient descent on the biases of layer `l + 1`.
    fn step_biases(&mut self, l: usize, delta: &Vec<S>, learning_rate: S)
        requires
            old(self)@.wf(),
            l + 1 < old(self)@.size.len(),
            delta@.len() == old(self)@.size[l + 1],
        ensures
            final(self)@.size == old(self)@.size,
            final(self)@.weights == old(self)@.weights,
            final(self)@.biases == old(self)@.biases.update(
                l as int,
                stepped_biases(old(self)@.biases[l as int], delta@, learning_rate),
            ),
    {
        let n = delta.len();
        assert(old(self)@.biases[l as int] == old(self).biases@[l as int]@);
        let mut i: usize = 0;
        while i < n
            invariant
                n == delta@.len(),
                l < old(self).biases@.len(),
                n == old(self).biases@[l as int]@.len(),
                i <= n,
                self.size == old(self).size,
                self.weights == old(self).weights,
                self.biases@.len() == old(self).biases@.len(),
                forall|k: int|
                    0 <= k < self.biases@.len() && k != l ==> self.biases@[k] == old(
                        self,
                    ).biases@[k],
                self.biases@[l as int]@.len() == n,
                forall|k: int|
                    0 <= k < i ==> self.biases@[l as int]@[k] == old(
                        self,
                    ).biases@[l as int]@[k].spec_minus(delta@[k].spec_times(learning_rate)),
                forall|k: int|
                    i <= k < n ==> self.biases@[l as int]@[k] == old(self).biases@[l as int]@[k],
            decreases n - i,
        {
            let b = self.biases[l][i].minus(delta[i].times(learning_rate));
            self.biases[l][i] = b;
            i += 1;
        }
        assert(self@.biases =~= old(self)@.biases.update(
            l as int,
            stepped_biases(old(self)@.biases[l as int], delta@, learning_rate),
        )) by {
            assert(self@.biases[l as int] =~= stepped_biases(
                old(self)@.biases[l as int],
                delta@,
                learning_rate,
            ));
        }
    }

    /// Takes one step of gradient descent on the weights between layer `l` and
    /// the next one.
    fn step_weights(&mut self, l: usize, delta: &Vec<S>, activs: &Vec<S>, learning_rate: S)
        requires
            old(self)@.wf(),
            l + 1 < old(self)@.size.len(),
            delta@.len() == old(self)@.size[l + 1],
            activs@.len() == old(self)@.size[l as int],
        ensures
            final(self)@.size == old(self)@.size,
            final(self)@.biases == old(self)@.biases,
            final(self)@.weights == old(self)@.weights.update(
                l as int,
                stepped_weights(old(self)@.weights[l as int], delta@, activs@, learning_rate),
            ),
    {
        let n_rows = delta.len();
        let n_cols = activs.len();
        assert(old(self)@.weights[l as int].len() == n_rows);
        assert forall|r: int| 0 <= r < n_rows implies old(self).weights@[l as int]@[r]@.len()
            == n_cols by {
            assert(old(self)@.weights[l as int][r].len() == n_cols);
        }
        let mut i: usize = 0;
        while i < n_rows
            invariant
                n_rows == delta@.len(),
                n_cols == activs@.len(),
                l < old(self).weights@.len(),
                n_rows == old(self).weights@[l as int]@.len(),
                forall|r: int|
                    0 <= r < n_rows ==> old(self).weights@[l as int]@[r]@.len() == n_cols,
                i <= n_rows,
                self.size == old(self).size,
                self.biases == old(self).biases,
                self.weights@.len() == old(self).weights@.len(),
                forall|k: int|
                    0 <= k < self.weights@.len() && k != l ==> self.weights@[k] == old(
                        self,
                    ).weights@[k],
                self.weights@[l as int]@.len() == n_rows,
                forall|r: int|
                    0 <= r < n_rows ==> (#[trigger] self.weights@[l as int]@[r])@.len() == n_cols,
                forall|r: int, c: int|
                    0 <= r < i && 0 <= c < n_cols ==> #[trigger] self.weights@[l as int]@[r]@[c]
                        == old(self).weights@[l as int]@[r]@[c].spec_minus(
                        delta@[r].spec_times(activs@[c]).spec_times(learning_rate),
                    ),
                forall|r: int|
                    i <= r < n_rows ==> self.weights@[l as int]@[r] == old(
                        self,
                    ).weights@[l as int]@[r],
            decreases n_rows - i,
        {
            let ghost before = self.weights@[l as int]@;
            let mut j: usize = 0;
            while j < n_cols
                invariant
                    before.len() == n_rows,
                    before[i as int] == old(self).weights@[l as int]@[i as int],
                    forall|r: int| 0 <= r < n_rows ==> (#[trigger] before[r])@.len() == n_cols,
                    forall|r: int, c: int|
                        0 <= r < i && 0 <= c < n_cols ==> #[trigger] before[r]@[c] == old(
                            self,
                        ).weights@[l as int]@[r]@[c].spec_minus(
                            delta@[r].spec_times(activs@[c]).spec_times(learning_rate),
                        ),
                    forall|r: int|
                        i < r < n_rows ==> before[r] == old(self).weights@[l as int]@[r],
                    n_rows == delta@.len(),
                    n_cols == activs@.len(),
                    l < old(self).weights@.len(),
                    n_rows == old(self).weights@[l as int]@.len(),
                    old(self).weights@[l as int]@[i as int]@.len() == n_cols,
                    i < n_rows,
                    j <= n_cols,
                    self.size == old(self).size,
                    self.biases == old(self).biases,
                    self.weights@.len() == old(self).weights@.len(),
                    forall|k: int|
                        0 <= k < self.weights@.len() && k != l ==> self.weights@[k] == old(
                            self,
                        ).weights@[k],
                    self.weights@[l as int]@.len() == n_rows,
                    forall|r: int|
                        0 <= r < n_rows && r != i ==> #[trigger] self.weights@[l as int]@[r]
                            == before[r],
                    self.weights@[l as int]@[i as int]@.len() == n_cols,
                    forall|c: int|
                        0 <= c < j ==> self.weights@[l as int]@[i as int]@[c] == old(
                            self,
                        ).weights@[l as int]@[i as int]@[c].spec_minus(
                            delta@[i as int].spec_times(activs@[c]).spec_times(learning_rate),
                        ),
                    forall|c: int|
                        j <= c < n_cols ==> self.weights@[l as int]@[i as int]@[c] == old(
                            self,
                        ).weights@[l as int]@[i as int]@[c],
                decreases n_cols - j,
            {
                let w = self.weights[l][i][j].minus(delta[i].times(activs[j]).times(learning_rate));
                self.weights[l][i][j] = w;
                j += 1;
            }
            proof {
                assert forall|r: int, c: int| 0 <= r < i + 1 && 0 <= c < n_cols implies
                    #[trigger] self.weights@[l as int]@[r]@[c] == old(
                    self,
                ).weights@[l as int]@[r]@[c].spec_minus(
                    delta@[r].spec_times(activs@[c]).spec_times(learning_rate),
                ) by {
                    if r != i {
                        assert(before[r]@[c] == old(self).weights@[l as int]@[r]@[c].spec_minus(
                            delta@[r].spec_times(activs@[c]).spec_times(learning_rate),
                        ));
                    }
                }
            }
            i += 1;
        }
        assert(self@.weights =~= old(self)@.weights.update(
            l as int,
            stepped_weights(old(self)@.weights[l as int], delta@, activs@, learning_rate),
        )) by {
            let target = stepped_weights(
                old(self)@.weights[l as int],
                delta@,
                activs@,
                learning_rate,
            );
            assert forall|r: int| 0 <= r < n_rows implies self@.weights[l as int][r]
                =~= target[r] by {}
            assert(self@.weights[l as int] =~= target);
        }
    }

    /// Carries the derivatives over the weighted sums of layer `l + 1` back to
    /// the activations of layer `l`.
    fn carry_back(&self, l: usize, delta: &Vec<S>) -> (derivs: Vec<S>)
        requires
            self@.wf(),
            l + 1 < self@.size.len(),
            delta@.len() == self@.size[l + 1],
        ensures
            derivs@ == vec_mat(delta@, self@.weights[l as int], self@.size[l as int] as nat),
    {
        let m = &self.weights[l];
        let n_rows = delta.len();
        let n_cols = self.size[l];
        assert(self@.weights[l as int].len() == n_rows);
        assert forall|r: int| 0 <= r < n_rows implies (#[trigger] m@[r])@.len() == n_cols by {
            assert(self@.weights[l as int][r].len() == n_cols);
        }
        let mut derivs: Vec<S> = Vec::with_capacity(n_cols);
        let mut j: usize = 0;
        while j < n_cols
            invariant
                m@.len() == n_rows,
                delta@.len() == n_rows,
                forall|r: int| 0 <= r < n_rows ==> (#[trigger] m@[r])@.len() == n_cols,
                j <= n_cols,
                derivs@.len() == j,
                forall|c: int|
                    0 <= c < j ==> #[trigger] derivs@[c] == dot(delta@, column(rows(*m), c)),
            decreases n_cols - j,
        {
            let mut sum = S::zero();
            let mut i: usize = 0;
            while i < n_rows
                invariant
                    m@.len() == n_rows,
                    delta@.len() == n_rows,
                    forall|r: int| 0 <= r < n_rows ==> (#[trigger] m@[r])@.len() == n_cols,
                    j < n_cols,
                    i <= n_rows,
                    sum == crate::linalg::dot_upto(delta@, column(rows(*m), j as int), i as nat),
                decreases n_rows - i,
            {
                sum = sum.plus(delta[i].times(m[i][j]));
                i += 1;
            }
            derivs.push(sum);
            j += 1;
        }
        derivs
    }

    /// Evaluates the network as [`NNetwork::eval_intermediate`] does, after
    /// checking that there is one input for each node of the input layer.
    pub fn try_eval_intermediate<A: Deriv<In = S, Out = S>>(
        &self,
        inputs: Vec<S>,
        activation: &A,
    ) -> (r: Result<Intermediate<S>, Error>)
        requires
            self@.wf(),
        ensures
            match r {
                Ok(inter) => inputs@.len() == self@.size[0] && inter@ == self@.record(
                    activation,
                    inputs@,
                ) && self@.fits(inter@),
                Err(e) => inputs@.len() != self@.size[0] && e == Error::WrongInputSize,
            },
    {
        match self.check_inputs(&inputs) {
            Ok(()) => Ok(self.eval_intermediate(inputs, activation)),
            Err(e) => Err(e),
        }
    }

    /// Evaluates the network as [`NNetwork::eval`] does, after checking that
    /// there is one input for each node of the input layer.
    pub fn try_eval<A: Deriv<In = S, Out = S>>(&self, inputs: Vec<S>, activation: &A) -> (r: Result<
        Vec<S>,
        Error,
    >)
        requires
            self@.wf(),
        ensures
            match r {
                Ok(out) => inputs@.len() == self@.size[0] && out@ == self@.output(
                    activation,
                    inputs@,
                ),
                Err(e) => inputs@.len() != self@.size[0] && e == Error::WrongInputSize,
            },
    {
        match self.check_inputs(&inputs) {
            Ok(()) => Ok(self.eval(inputs, activation)),
            Err(e) => Err(e),
        }
    }

    /// Runs a backpropagation cycle on the network in-place, using the given intermediate
    /// calculations, activation function, error function and learning rate.
    ///
    /// Returns the error and the activation derivatives at the input layer.
    pub fn backprop_deriv<A, E>(
        &mut self,
        intermediate: Intermediate<S>,
        activation: &A,
        error: &E,
        learning_rate: S,
    ) -> (r: (S, Vec<S>)) where A: Deriv<In = S, Out = S>, E: NDeriv<In = Vec<S>, Out = S>
        requires
            old(self)@.wf(),
            old(self)@.fits(intermediate@),
            forall|p: usize|
                p < old(self)@.size.last() ==> error.defined_at(&intermediate.activs@.last(), p),
        ensures
            final(self)@ == old(self)@.trained(
                intermediate@,
                activation,
                error_derivs(
                    error,
                    intermediate.activs@.last(),
                    old(self)@.size.last() as nat,
                ),
                learning_rate,
            ),
            final(self)@.wf(),
            final(self)@.size == old(self)@.size,
            r.0 == error.spec_call(&intermediate.activs@.last()),
            r.1@ == old(self)@.derivs_at(
                intermediate@,
                activation,
                error_derivs(
                    error,
                    intermediate.activs@.last(),
                    old(self)@.size.last() as nat,
                ),
                0,
            ),
    {
        let n = self.size.len();
        let outputs = &intermediate.activs[n - 1];
        let output_size = self.size[n - 1];
        let out = error.call(outputs);
        let ghost net = self@;
        let ghost inter = intermediate@;
        let ghost top = error_derivs(error, *outputs, output_size as nat);
        assert(intermediate.activs@.last() == *outputs);

        // Calculate error derivatives
        let mut derivs: Vec<S> = Vec::with_capacity(output_size);
        let mut p: usize = 0;
        while p < output_size
            invariant
                p <= output_size,
                forall|q: usize| q < output_size ==> error.defined_at(outputs, q),
                derivs@.len() == p,
                forall|q: int| 0 <= q < p ==> derivs@[q] == error.spec_deriv(outputs, q as usize),
            decreases output_size - p,
        {
            derivs.push(error.deriv(outputs, p));
            p += 1;
        }

        // Loop over the weights and biases over each layers in reverse order.
        let mut l: usize = n - 1;
        while l > 0
            invariant
                net.wf(),
                net.fits(inter),
                inter == intermediate@,
                net == old(self)@,
                n == net.size.len(),
                top.len() == net.size[n - 1],
                l <= n - 1,
                self@.wf(),
                self@.size == net.size,
                derivs@ == net.derivs_at(inter, activation, top, l as int),
                forall|k: int|
                    0 <= k < l ==> self@.weights[k] == net.weights[k] && self@.biases[k]
                        == net.biases[k],
                forall|k: int|
                    l <= k < n - 1 ==> self@.weights[k] == stepped_weights(
                        net.weights[k],
                        net.delta(inter, activation, top, k),
                        inter.activs[k],
                        learning_rate,
                    ) && self@.biases[k] == stepped_biases(
                        net.biases[k],
                        net.delta(inter, activation, top, k),
                        learning_rate,
                    ),
            decreases l,
        {
            l -= 1;
            proof {
                net.lemma_derivs_len(inter, activation, top, l + 1);
                assert(inter.sums[l as int].len() == net.size[l + 1]);
                assert(inter.activs[l as int].len() == net.size[l as int]);
            }
            // Apply activation
            let delta = scale(derivs, &intermediate.sums[l], activation);
            // Update biases
            self.step_biases(l, &delta, learning_rate);
            // Multiply the current derivatives by the weights to get derivatives for prev layer
            let new_derivs = self.carry_back(l, &delta);
            // Update weights
            self.step_weights(l, &delta, &intermediate.activs[l], learning_rate);
            derivs = new_derivs;
        }
        proof {
            let t = net.trained(inter, activation, top, learning_rate);
            assert(self@.weights =~= t.weights);
            assert(self@.biases =~= t.biases);
            net.lemma_trained_wf(inter, activation, top, learning_rate);
        }
        (out, derivs)
    }

    /// Runs a backpropagation cycle on the network in-place, using the given intermediate
    /// calculations, activation function, error function and learning rate.
    ///
    /// Returns the error.
    pub fn backprop<A, E>(
        &mut self,
        intermediate: Intermediate<S>,
        activation: &A,
        error: &E,
        learning_rate: S,
    ) -> (r: S) where A: Deriv<In = S, Out = S>, E: NDeriv<In = Vec<S>, Out = S>
        requires
            old(self)@.wf(),
            old(self)@.fits(intermediate@),
            forall|p: usize|
                p < old(self)@.size.last() ==> error.defined_at(&intermediate.activs@.last(), p),
        ensures
            final(self)@ == old(self)@.trained(
                intermediate@,
                activation,
                error_derivs(
                    error,
                    intermediate.activs@.last(),
                    old(self)@.size.last() as nat,
                ),
                learning_rate,
            ),
            final(self)@.wf(),
            final(self)@.size == old(self)@.size,
            r == error.spec_call(&intermediate.activs@.last()),
    {
        self.backprop_deriv(intermediate, activation, error, learning_rate).0
    }
}

/// Multiplies each derivative by the derivative of the activation function at
/// the matching weighted sum.
fn scale<S: Scalar, A: Deriv<In = S, Out = S>>(derivs: Vec<S>, sums: &Vec<S>, activation: &A) -> (delta:
    Vec<S>)
    requires
        derivs@.len() == sums@.len(),
    ensures
        delta@ == scaled(activation, derivs@, sums@),
{
    let mut delta = derivs;
    let n = delta.len();
    let mut i: usize = 0;
    while i < n
        invariant
            n == derivs@.len(),
            n == sums@.len(),
            delta@.len() == n,
            i <= n,
            forall|k: int|
                0 <= k < i ==> delta@[k] == derivs@[k].spec_times(
                    activation.spec_deriv(&sums@[k]),
                ),
            forall|k: int| i <= k < n ==> delta@[k] == derivs@[k],
        decreases n - i,
    {
        let d = delta[i].times(activation.deriv(&sums[i]));
        delta[i] = d;
        i += 1;
    }
    delta
}

/// A generator that always answers a request the same way builds the same
/// network from the same layer sizes, however often it is asked.
pub proof fn lemma_same_generator_same_network<S, F: Fn(GenReq) -> S>(
    a: NetView<S>,
    b: NetView<S>,
    gen: F,
)
    requires
        a.wf(),
        b.wf(),
        a.size == b.size,
        generated_by(a, gen),
        generated_by(b, gen),
        forall|req: GenReq, v: S, w: S|
            call_ensures(gen, (req,), v) && call_ensures(gen, (req,), w) ==> v == w,
    ensures
        a == b,
{
    assert forall|l: int| 0 <= l < a.weights.len() implies a.weights[l] == b.weights[l] by {
        assert forall|i: int| 0 <= i < a.weights[l].len() implies a.weights[l][i]
            == b.weights[l][i] by {
            assert(a.weights[l][i].len() == a.size[l]);
            assert(b.weights[l][i].len() == b.size[l]);
            assert forall|j: int| 0 <= j < a.weights[l][i].len() implies a.weights[l][i][j]
                == b.weights[l][i][j] by {
                let req = GenReq::Weight { l: l as usize, i_l: j as usize, i_n: i as usize };
                assert(call_ensures(gen, (req,), a.weights[l][i][j]));
                assert(call_ensures(gen, (req,), b.weights[l][i][j]));
            }
            assert(a.weights[l][i] =~= b.weights[l][i]);
        }
        assert(a.weights[l] =~= b.weights[l]);
    }
    assert(a.weights =~= b.weights);
    assert forall|l: int| 0 <= l < a.biases.len() implies a.biases[l] == b.biases[l] by {
        assert forall|i: int| 0 <= i < a.biases[l].len() implies a.biases[l][i]
            == b.biases[l][i] by {
            let req = GenReq::Bias { l: (l + 1) as usize, i_l: i as usize };
            assert(call_ensures(gen, (req,), a.biases[l][i]));
            assert(call_ensures(gen, (req,), b.biases[l][i]));
        }
        assert(a.biases[l] =~= b.biases[l]);
    }
    assert(a.biases =~= b.biases);
}

impl<S: Scalar> NetView<S> {
    /// The network after the first `n` of a sequence of training steps. Each
    /// step evaluates the network on the next inputs and runs one
    /// backpropagation cycle on the record, where `top_of` gives the
    /// derivatives of the error over the outputs.
    pub open spec fn after_steps<A: Deriv<In = S, Out = S>>(
        self,
        inputs: Seq<Seq<S>>,
        activation: &A,
        top_of: spec_fn(Seq<S>) -> Seq<S>,
        rate: S,
        n: nat,
    ) -> NetView<S>
        decreases n,
    {
        if n == 0 {
            self
        } else {
            let before = self.after_steps(inputs, activation, top_of, rate, (n - 1) as nat);
            before.trained(
                before.record(activation, inputs[n - 1]),
                activation,
                top_of(before.output(activation, inputs[n - 1])),
                rate,
            )
        }
    }

    /// Training never resizes a network: after any number of steps it has the
    /// layer sizes it was built with, and every matrix and vector still has
    /// the shape that they call for.
    pub proof fn lemma_steps_keep_shape<A: Deriv<In = S, Out = S>>(
        self,
        inputs: Seq<Seq<S>>,
        activation: &A,
        top_of: spec_fn(Seq<S>) -> Seq<S>,
        rate: S,
        n: nat,
    )
        requires
            self.wf(),
        ensures
            self.after_steps(inputs, activation, top_of, rate, n).wf(),
            self.after_steps(inputs, activation, top_of, rate, n).size == self.size,
        decreases n,
    {
        if n > 0 {
            self.lemma_steps_keep_shape(inputs, activation, top_of, rate, (n - 1) as nat);
            let before = self.after_steps(inputs, activation, top_of, rate, (n - 1) as nat);
            before.lemma_trained_wf(
                before.record(activation, inputs[n - 1]),
                activation,
                top_of(before.output(activation, inputs[n - 1])),
                rate,
            );
        }
    }
}

/// Whether the derivatives of `error` over a vector of outputs depend only on
/// what the vector holds, and are then what `top_of` gives for it.
pub open spec fn reads_contents<S, E: NDeriv<In = Vec<S>, Out = S>>(
    error: &E,
    top_of: spec_fn(Seq<S>) -> Seq<S>,
) -> bool {
    forall|outputs: Vec<S>| #[trigger]
        error_derivs(error, outputs, outputs@.len()) == top_of(outputs@)
}

/// Step `n` of `after_steps` is what a call of `eval_intermediate` followed by
/// a call of `backprop_deriv` leaves: for the record that the first call
/// promises of the network after `n - 1` steps, the network that the second
/// call promises is the network after `n` steps.
pub proof fn lemma_step_is_one_cycle<S: Scalar, A, E>(
    start: NetView<S>,
    inputs: Seq<Seq<S>>,
    activation: &A,
    error: &E,
    top_of: spec_fn(Seq<S>) -> Seq<S>,
    rate: S,
    n: nat,
    inter: Intermediate<S>,
) where A: Deriv<In = S, Out = S>, E: NDeriv<In = Vec<S>, Out = S>
    requires
        start.wf(),
        n >= 1,
        inputs[n - 1].len() == start.size[0],
        reads_contents(error, top_of),
        inter@ == start.after_steps(inputs, activation, top_of, rate, (n - 1) as nat).record(
            activation,
            inputs[n - 1],
        ),
    ensures
        ({
            let before = start.after_steps(inputs, activation, top_of, rate, (n - 1) as nat);
            &&& before.wf()
            &&& before.fits(inter@)
            &&& before.trained(
                inter@,
                activation,
                error_derivs(error, inter.activs@.last(), before.size.last() as nat),
                rate,
            ) == start.after_steps(inputs, activation, top_of, rate, n)
        }),
{
    let before = start.after_steps(inputs, activation, top_of, rate, (n - 1) as nat);
    start.lemma_steps_keep_shape(inputs, activation, top_of, rate, (n - 1) as nat);
    before.lemma_record_fits(activation, inputs[n - 1]);
    let last = before.size.len() - 1;
    let outputs = inter.activs@.last();
    assert(outputs@ == inter@.activs[last]);
    assert(outputs@ == before.output(activation, inputs[n - 1]));
    before.lemma_activs_len(activation, inputs[n - 1], last as nat);
    assert(error_derivs(error, outputs, outputs@.len()) == top_of(outputs@));
}

/// Two networks that start from the same parameters and are trained on the
/// same sequence of inputs hold the same parameters after every step.
pub proof fn lemma_same_run_same_network<S: Scalar, A: Deriv<In = S, Out = S>>(
    a: NetView<S>,
    b: NetView<S>,
    inputs: Seq<Seq<S>>,
    activation: &A,
    top_of: spec_fn(Seq<S>) -> Seq<S>,
    rate: S,
    n: nat,
)
    requires
        a == b,
    ensures
        a.after_steps(inputs, activation, top_of, rate, n) == b.after_steps(
            inputs,
            activation,
            top_of,
            rate,
            n,
        ),
{
}

} // verus!
