use float_cmp::{ApproxEq, F32Margin};
use rann::compose::zip::Stacker;
use rann::deriv::Deriv;
use rann::error::SquareError;
use rann::full::Full;
use rann::{Compose, Intermediate, Network, Scalar};

/// A single-precision float as the networks' number type.
#[derive(Clone, Copy, Debug, PartialEq)]
struct Real(f32);

impl Scalar for Real {
    fn spec_zero() -> Self {
        Self::zero()
    }

    fn spec_one() -> Self {
        Self::one()
    }

    fn spec_plus(self, rhs: Self) -> Self {
        self.plus(rhs)
    }

    fn spec_minus(self, rhs: Self) -> Self {
        self.minus(rhs)
    }

    fn spec_times(self, rhs: Self) -> Self {
        self.times(rhs)
    }

    fn spec_abs(self) -> Self {
        self.abs()
    }

    fn spec_is_positive(self) -> bool {
        self.is_positive()
    }

    fn zero() -> Self {
        Real(0.0)
    }

    fn one() -> Self {
        Real(1.0)
    }

    fn plus(self, rhs: Self) -> Self {
        Real(self.0 + rhs.0)
    }

    fn minus(self, rhs: Self) -> Self {
        Real(self.0 - rhs.0)
    }

    fn times(self, rhs: Self) -> Self {
        Real(self.0 * rhs.0)
    }

    fn abs(self) -> Self {
        Real(self.0.abs())
    }

    fn is_positive(self) -> bool {
        self.0 > 0.0
    }
}

/// Logistic activation function.
#[derive(Clone, Copy, Debug, PartialEq, Eq)]
struct Logistic;

impl Deriv for Logistic {
    type In = Real;

    type Out = Real;

    fn spec_call(&self, x: &Real) -> Real {
        self.call(x)
    }

    fn spec_deriv(&self, x: &Real) -> Real {
        self.deriv(x)
    }

    fn call(&self, x: &Real) -> Real {
        Real(1.0 / (1.0 + (-x.0).exp()))
    }

    fn deriv(&self, x: &Real) -> Real {
        let a = self.call(x).0;
        Real(a * (1.0 - a))
    }
}

fn random_weights(_: usize, _: usize) -> Real {
    Real(fastrand::f32() * 4.0 - 2.0)
}

fn random_biases(_: usize) -> Real {
    Real(fastrand::f32() * 4.0 - 2.0)
}

fn reals<const N: usize>(values: [f32; N]) -> [Real; N] {
    values.map(Real)
}

fn floats<const N: usize>(values: &[Real; N]) -> [f32; N] {
    values.map(|x| x.0)
}

#[test]
/// A simple example showcasing how to compose a neural network.
fn simple_compose() {
    // The learning rate.
    const RATE: f32 = 0.5;
    // Prints statistics every `REP` iterations.
    const STAT: usize = 1000;
    // The amount of iterations to train the network for.
    const ITER: usize = 100000;
    // The expected values.
    const EXPECTED: [f32; 6] = [0.99, 0.1, 0.5, 0.3, 0.789, 0.6];
    // The weights start from a fixed seed, so that every run trains the same network.
    fastrand::seed(7);
    // Network inputs.
    let input: ([Real; 1], [Real; 5]) = (reals([5.0]), reals([2.0; 5]));
    // Builds a chain of layers, forming a network.
    let net = Full::<1, 5, _>::new(Logistic, (random_weights, random_biases))
        // You can even remove some intermediate const parameters.
        .chain(Full::new(Logistic, (random_weights, random_biases)))
        .chain(Full::<10, 5, _>::new(
            Logistic,
            (random_weights, random_biases),
        ))
        .chain(Full::<5, 1, _>::new(
            Logistic,
            (random_weights, random_biases),
        ));

    // Here we declare an independent layer...
    let other = Full::<5, 5, _>::new(Logistic, (random_weights, random_biases));
    // ... which we zip together with the previously defined network.
    let net = net.zip(other, Stacker::<1, 5, { 1 + 5 }>);

    // Finally, we declare an error function, after which we have a fully functional and trainable
    // network.
    let mut net = net.chain(SquareError {
        expected: reals(EXPECTED),
    });

    // Then, we train the network periodically.
    for i in 0..ITER {
        // To train the network, we have to evaluate it at least once.
        let inter = net.intermediate(&input);

        // We periodically print some statistics to monitor the network.
        if i % STAT == 0 {
            println!("Error: {:?}", inter.output());
            println!("Outputs: {:?}", inter.first.output())
        }

        // And then we train the network on the inputs and calculations we already did.
        net.train(&input, &inter, Real(RATE));
    }

    // After fully training the network, we test its performance.

    let inter = net.intermediate(&input);
    // We can break the intermediate calculation up into an error...
    let err = floats(inter.output());
    // ...and the actual output of the network.
    let out = floats(inter.first.output());

    assert!(err[0] < 0.1f32, "Error {err:?} is too large.");
    assert!(
        out.as_slice().approx_eq(
            EXPECTED.as_slice(),
            F32Margin {
                epsilon: 0.01,
                ulps: 10
            }
        ),
        "{out:?} is too different from {EXPECTED:?}."
    );
}
