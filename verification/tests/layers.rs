use rann::activ::LeakyRelu;
use rann::common;
use rann::compose::zip::Stacker;
use rann::deriv::{Deriv, NDeriv};
use rann::error::{SquareError, SumError};
use rann::full::Full;
use rann::{Compose, Intermediate, Network, Scalar};

/// A single-precision float as the networks' number type.
#[derive(Clone, Copy, Debug, PartialEq)]
struct Real(f32);

impl Scalar for Real {
    fn spec_zero() -> Self {
        Self::zero()
    }

    fn spec_one() -> Self {
        Self::one()
    }

    fn spec_plus(self, rhs: Self) -> Self {
        self.plus(rhs)
    }

    fn spec_minus(self, rhs: Self) -> Self {
        self.minus(rhs)
    }

    fn spec_times(self, rhs: Self) -> Self {
        self.times(rhs)
    }

    fn spec_abs(self) -> Self {
        self.abs()
    }

    fn spec_is_positive(self) -> bool {
        self.is_positive()
    }

    fn zero() -> Self {
        Real(0.0)
    }

    fn one() -> Self {
        Real(1.0)
    }

    fn plus(self, rhs: Self) -> Self {
        Real(self.0 + rhs.0)
    }

    fn minus(self, rhs: Self) -> Self {
        Real(self.0 - rhs.0)
    }

    fn times(self, rhs: Self) -> Self {
        Real(self.0 * rhs.0)
    }

    fn abs(self) -> Self {
        Real(self.0.abs())
    }

    fn is_positive(self) -> bool {
        self.0 > 0.0
    }
}

fn reals<const N: usize>(values: [f32; N]) -> [Real; N] {
    values.map(Real)
}

fn layer() -> Full<2, 2, LeakyRelu<Real>> {
    let weights = [[1.0, 2.0], [3.0, 4.0]];
    let biases = [0.5, -20.0];
    Full::new(
        LeakyRelu(Real(0.5)),
        (
            |input: usize, output: usize| Real(weights[output][input]),
            |output: usize| Real(biases[output]),
        ),
    )
}

#[test]
fn leaky_relu_is_the_identity_above_zero_and_a_slope_below() {
    let act = LeakyRelu(Real(0.5));
    assert_eq!(Deriv::call(&act, &Real(2.0)), Real(2.0));
    assert_eq!(Deriv::call(&act, &Real(-2.0)), Real(-1.0));
    assert_eq!(Deriv::call(&act, &Real(0.0)), Real(0.0));
    assert_eq!(Deriv::deriv(&act, &Real(2.0)), Real(1.0));
    assert_eq!(Deriv::deriv(&act, &Real(-2.0)), Real(0.5));
    assert_eq!(Deriv::deriv(&act, &Real(0.0)), Real(0.5));
}

#[test]
fn derivatives_match_the_slope_of_the_function() {
    let act = LeakyRelu(Real(0.25));
    let h = 0.125;
    for x in [-3.0f32, -1.0, -0.5, 0.5, 1.0, 3.0] {
        let above = Deriv::call(&act, &Real(x + h)).0;
        let below = Deriv::call(&act, &Real(x - h)).0;
        let slope = (above - below) / (2.0 * h);
        assert_eq!(Deriv::deriv(&act, &Real(x)), Real(slope));
    }
    let error = common::SquareError {
        expected: vec![Real(1.0), Real(3.0)],
    };
    for x in [-2.0f32, 0.0, 1.0, 2.5] {
        let above = error.call(&vec![Real(x + h), Real(0.5)]).0;
        let below = error.call(&vec![Real(x - h), Real(0.5)]).0;
        let slope = (above - below) / (2.0 * h);
        assert_eq!(error.deriv(&vec![Real(x), Real(0.5)], 0), Real(slope));
    }
}

#[test]
fn one_dimensional_function_is_also_multi_dimensional() {
    let act = LeakyRelu(Real(0.5));
    assert_eq!(NDeriv::call(&act, &[Real(-2.0)]), Real(-1.0));
    assert_eq!(NDeriv::deriv(&act, &[Real(-2.0)], 0), Real(0.5));
    assert_eq!(NDeriv::deriv(&act, &[Real(3.0)], 7), Real(1.0));
}

#[test]
fn layer_keeps_weighted_sums_and_outputs() {
    let inter = layer().intermediate(&reals([1.0, 2.0]));
    assert_eq!(inter.weighted_sums, reals([5.5, -9.0]));
    assert_eq!(inter.outputs, reals([5.5, -4.5]));
    assert_eq!(*inter.output(), reals([5.5, -4.5]));
    assert_eq!(inter.into_output(), reals([5.5, -4.5]));
    assert_eq!(layer().eval(&reals([1.0, 2.0])), reals([5.5, -4.5]));
}

#[test]
fn layer_is_generated_by_position() {
    let full = Full::<3, 2, _>::new(
        LeakyRelu(Real(0.5)),
        (
            |input: usize, output: usize| Real((10 * output + input) as f32),
            |output: usize| Real(100.0 + output as f32),
        ),
    );
    assert_eq!(
        *full.weights(),
        [reals([0.0, 1.0, 2.0]), reals([10.0, 11.0, 12.0])]
    );
    assert_eq!(*full.biases(), reals([100.0, 101.0]));
    assert_eq!(*full.act(), LeakyRelu(Real(0.5)));
}

#[test]
fn layer_asks_for_weights_input_by_input_and_then_for_biases() {
    let mut count = 0.0;
    let mut next = move || {
        count += 1.0;
        Real(count)
    };
    let mut other = next.clone();
    let full = Full::<2, 3, _>::new(
        LeakyRelu(Real(0.5)),
        (move |_, _| next(), move |_| Real(10.0 * other().0)),
    );
    assert_eq!(
        *full.weights(),
        [reals([1.0, 4.0]), reals([2.0, 5.0]), reals([3.0, 6.0])]
    );
    assert_eq!(*full.biases(), reals([10.0, 20.0, 30.0]));
}

#[test]
fn layer_descends_along_the_gradient() {
    let mut full = layer();
    let inputs = reals([1.0, 2.0]);
    let inter = full.intermediate(&inputs);
    let back = full.train_deriv(&inputs, &inter, &reals([1.0, 2.0]), Real(0.25));
    assert_eq!(*full.biases(), reals([0.25, -20.25]));
    assert_eq!(*full.weights(), [reals([0.75, 1.5]), reals([2.75, 3.5])]);
    assert_eq!(*full.act(), LeakyRelu(Real(0.5)));
    // The gradients over the inputs go through the weights as they were.
    assert_eq!(back, reals([4.0, 6.0]));
}

#[test]
fn training_without_gradients_starts_from_ones() {
    let inputs = reals([1.0, 2.0]);
    let mut by_train = layer();
    let inter = by_train.intermediate(&inputs);
    by_train.train(&inputs, &inter, Real(0.25));
    let mut by_hand = layer();
    by_hand.train_deriv(&inputs, &inter, &reals([1.0, 1.0]), Real(0.25));
    assert_eq!(by_train.weights(), by_hand.weights());
    assert_eq!(by_train.biases(), by_hand.biases());
    assert_eq!(*by_train.biases(), reals([0.25, -20.125]));
}

#[test]
fn square_error_sums_squares() {
    let mut error = SquareError {
        expected: reals([1.0, 3.0]),
    };
    let inputs = reals([2.0, 1.0]);
    let inter = error.intermediate(&inputs);
    assert_eq!(inter, reals([5.0]));
    let back = error.train_deriv(&inputs, &inter, &reals([1.0]), Real(0.25));
    assert_eq!(back, reals([2.0, -4.0]));
    assert_eq!(error.expected, reals([1.0, 3.0]));
}

#[test]
fn sum_error_sums_distances() {
    let mut error = SumError {
        expected: reals([1.0, 3.0]),
    };
    let inputs = reals([3.0, 1.0]);
    let inter = error.intermediate(&inputs);
    assert_eq!(inter, reals([4.0]));
    // The slope of a distance is its sign, however large the distance.
    let back = error.train_deriv(&inputs, &inter, &reals([1.0]), Real(0.25));
    assert_eq!(back, reals([1.0, -1.0]));
    assert_eq!(error.expected, reals([1.0, 3.0]));
    let on_target = reals([1.0, 3.5]);
    let inter = error.intermediate(&on_target);
    assert_eq!(inter, reals([0.5]));
    let back = error.train_deriv(&on_target, &inter, &reals([1.0]), Real(0.25));
    assert_eq!(back, reals([0.0, 1.0]));
}

#[test]
fn error_functions_stop_at_the_shorter_vector() {
    let x = vec![Real(2.0), Real(1.0), Real(7.0)];
    let square = common::SquareError {
        expected: vec![Real(1.0), Real(3.0)],
    };
    assert_eq!(square.call(&x), Real(5.0));
    assert_eq!(square.deriv(&x, 0), Real(2.0));
    assert_eq!(square.deriv(&x, 1), Real(-4.0));
    let sum = common::Sum {
        expected: vec![Real(1.0), Real(3.0)],
    };
    assert_eq!(sum.call(&x), Real(3.0));
    assert_eq!(sum.deriv(&x, 0), Real(1.0));
    assert_eq!(sum.deriv(&x, 1), Real(-1.0));
}

#[test]
fn absolute_error_has_the_sign_of_the_difference_as_derivative() {
    let sum = common::Sum {
        expected: vec![Real(1.0), Real(1.0), Real(1.0)],
    };
    let x = vec![Real(3.0), Real(-4.0), Real(1.0)];
    assert_eq!(sum.call(&x), Real(7.0));
    assert_eq!(sum.deriv(&x, 0), Real(1.0));
    assert_eq!(sum.deriv(&x, 1), Real(-1.0));
    assert_eq!(sum.deriv(&x, 2), Real(0.0));
    let h = 0.125;
    for value in [-2.0f32, 0.0, 0.5, 1.5, 4.0] {
        let above = sum.call(&vec![Real(value + h)]).0;
        let below = sum.call(&vec![Real(value - h)]).0;
        let slope = (above - below) / (2.0 * h);
        assert_eq!(sum.deriv(&vec![Real(value)], 0), Real(slope));
    }
}

#[test]
fn chain_of_a_layer_with_itself_is_two_passes() {
    let inputs = reals([1.0, 2.0]);
    let chained = layer().chain(layer());
    let middle = layer().eval(&inputs);
    let twice = layer().eval(&middle);
    assert_eq!(chained.eval(&inputs), twice);
    assert_eq!(middle, reals([5.5, -4.5]));
    // 5.5 + 2 * -4.5 + 0.5 = -3, and 3 * 5.5 + 4 * -4.5 - 20 = -21.5
    assert_eq!(twice, reals([-1.5, -10.75]));
    let inter = chained.intermediate(&inputs);
    assert_eq!(*inter.first.output(), middle);
    assert_eq!(*inter.output(), twice);
}

#[test]
fn chain_trains_the_second_network_first() {
    let inputs = reals([1.0, 2.0]);
    let gradients = reals([1.0, 2.0]);
    let mut chained = layer().chain(layer());
    let inter = chained.intermediate(&inputs);
    let back = chained.train_deriv(&inputs, &inter, &gradients, Real(0.25));

    let mut first = layer();
    let mut second = layer();
    let boundary = second.train_deriv(
        inter.first.output(),
        &inter.second,
        &gradients,
        Real(0.25),
    );
    let expected = first.train_deriv(&inputs, &inter.first, &boundary, Real(0.25));
    assert_eq!(back, expected);
    assert_eq!(chained.first.weights(), first.weights());
    assert_eq!(chained.first.biases(), first.biases());
    assert_eq!(chained.second.weights(), second.weights());
    assert_eq!(chained.second.biases(), second.biases());
    // Both activation derivatives of the second layer are the slope.
    assert_eq!(boundary, reals([3.5, 5.0]));
}

#[test]
fn chains_of_chains_are_one_flat_chain() {
    let inputs = reals([1.0, 2.0]);
    let gradients = reals([1.0, -1.0]);
    let mut left = layer().chain(layer()).chain(layer());
    let mut right = layer().chain(layer().chain(layer()));
    assert_eq!(left.eval(&inputs), right.eval(&inputs));
    let left_inter = left.intermediate(&inputs);
    let right_inter = right.intermediate(&inputs);
    let left_back = left.train_deriv(&inputs, &left_inter, &gradients, Real(0.25));
    let right_back = right.train_deriv(&inputs, &right_inter, &gradients, Real(0.25));
    assert_eq!(left_back, right_back);
    assert_eq!(left.first.first.weights(), right.first.weights());
    assert_eq!(left.first.second.weights(), right.second.first.weights());
    assert_eq!(left.second.weights(), right.second.second.weights());
    assert_eq!(left.first.first.biases(), right.first.biases());
    assert_eq!(left.first.second.biases(), right.second.first.biases());
    assert_eq!(left.second.biases(), right.second.second.biases());
}

#[test]
fn zip_merges_outputs_and_splits_gradients() {
    let top_in = reals([1.0, 2.0]);
    let bot_in = reals([2.0, 1.0]);
    let mut zipped = layer().zip(layer(), Stacker::<2, 2, 4>);
    let inter = zipped.intermediate(&(top_in, bot_in));
    assert_eq!(*inter.top.output(), reals([5.5, -4.5]));
    // 2 + 2 + 0.5 = 4.5, and 6 + 4 - 20 = -10
    assert_eq!(*inter.bot.output(), reals([4.5, -5.0]));
    assert_eq!(*inter.output(), reals([5.5, -4.5, 4.5, -5.0]));
    assert_eq!(zipped.eval(&(top_in, bot_in)), reals([5.5, -4.5, 4.5, -5.0]));

    let gradients = reals([1.0, 2.0, 3.0, 4.0]);
    let back = zipped.train_deriv(&(top_in, bot_in), &inter, &gradients, Real(0.25));
    let mut top = layer();
    let mut bot = layer();
    let top_back = top.train_deriv(&top_in, &inter.top, &reals([1.0, 2.0]), Real(0.25));
    let bot_back = bot.train_deriv(&bot_in, &inter.bot, &reals([3.0, 4.0]), Real(0.25));
    assert_eq!(back, (top_back, bot_back));
    assert_eq!(zipped.top.weights(), top.weights());
    assert_eq!(zipped.top.biases(), top.biases());
    assert_eq!(zipped.bot.weights(), bot.weights());
    assert_eq!(zipped.bot.biases(), bot.biases());
    assert_eq!(top_back, reals([4.0, 6.0]));
    // The gradients over the weighted sums are 3 and 4 * 0.5.
    assert_eq!(bot_back, reals([9.0, 14.0]));
}
