use rann::common::{LeakyRelu, Sum};
use rann::net::{GenReq, NNetwork};
use rann::Scalar;

/// A single-precision float as the networks' number type.
#[derive(Clone, Copy, Debug, PartialEq)]
struct Real(f32);

impl Scalar for Real {
    fn spec_zero() -> Self {
        Self::zero()
    }

    fn spec_one() -> Self {
        Self::one()
    }

    fn spec_plus(self, rhs: Self) -> Self {
        self.plus(rhs)
    }

    fn spec_minus(self, rhs: Self) -> Self {
        self.minus(rhs)
    }

    fn spec_times(self, rhs: Self) -> Self {
        self.times(rhs)
    }

    fn spec_abs(self) -> Self {
        self.abs()
    }

    fn spec_is_positive(self) -> bool {
        self.is_positive()
    }

    fn zero() -> Self {
        Real(0.0)
    }

    fn one() -> Self {
        Real(1.0)
    }

    fn plus(self, rhs: Self) -> Self {
        Real(self.0 + rhs.0)
    }

    fn minus(self, rhs: Self) -> Self {
        Real(self.0 - rhs.0)
    }

    fn times(self, rhs: Self) -> Self {
        Real(self.0 * rhs.0)
    }

    fn abs(self) -> Self {
        Real(self.0.abs())
    }

    fn is_positive(self) -> bool {
        self.0 > 0.0
    }
}

fn reals(values: &[f32]) -> Vec<Real> {
    values.iter().map(|x| Real(*x)).collect()
}

fn random_unit(_: GenReq) -> Real {
    Real(fastrand::f32() * 4.0 - 2.0)
}

// Tests if a network can approximate a function with constant inputs and outputs.
#[test]
fn simple() {
    // The slope of an absolute error does not shrink with the error, so the
    // steps have to: the learning rate starts at 0.10 and loses a thousandth
    // of itself with every step.
    const RATE: f32 = 0.10;
    const DECAY: f32 = 0.999;
    let mut rate = RATE;
    let activation = LeakyRelu(Real(0.1));

    // The weights start from a fixed seed, so that every run trains the same network.
    fastrand::seed(7);
    let mut net = NNetwork::new(&[3, 5, 8], random_unit).unwrap();
    let expected = vec![1.0, 0.1, 0.4, 0.3, 0.5, 0.2, 0.7, 0.8];
    let error_fn = Sum {
        expected: reals(&expected),
    };
    let input = reals(&[1.0, 0.0, 0.5]);
    for i in 0..10000 {
        let inter = net.eval_intermediate(input.clone(), &activation);
        if i % 100 == 0 {
            println!();
            println!("{:?}", &expected);
            println!("{:?}", &inter.activs.last().unwrap());
        }
        let err = net.backprop(inter, &activation, &error_fn, Real(rate));
        rate *= DECAY;
        if i % 100 == 0 {
            println!("{:?}", &err);
        }
    }
    let mut out: Vec<f32> = net
        .eval(input.clone(), &activation)
        .iter()
        .map(|x| x.0)
        .collect();
    out.iter_mut()
        .for_each(|x| *x = (*x * 1000.0).round() / 1000.0);
    assert_eq!(expected, out);
}
