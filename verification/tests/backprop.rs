use std::cell::RefCell;

use fastrand::Rng;
use rann::common::{LeakyRelu, SquareError, Sum};
use rann::net::{Error, GenReq, Intermediate, NNetwork};
use rann::Scalar;

/// A single-precision float as the networks' number type.
#[derive(Clone, Copy, Debug, PartialEq)]
struct Real(f32);

impl Scalar for Real {
    fn spec_zero() -> Self {
        Self::zero()
    }

    fn spec_one() -> Self {
        Self::one()
    }

    fn spec_plus(self, rhs: Self) -> Self {
        self.plus(rhs)
    }

    fn spec_minus(self, rhs: Self) -> Self {
        self.minus(rhs)
    }

    fn spec_times(self, rhs: Self) -> Self {
        self.times(rhs)
    }

    fn spec_abs(self) -> Self {
        self.abs()
    }

    fn spec_is_positive(self) -> bool {
        self.is_positive()
    }

    fn zero() -> Self {
        Real(0.0)
    }

    fn one() -> Self {
        Real(1.0)
    }

    fn plus(self, rhs: Self) -> Self {
        Real(self.0 + rhs.0)
    }

    fn minus(self, rhs: Self) -> Self {
        Real(self.0 - rhs.0)
    }

    fn times(self, rhs: Self) -> Self {
        Real(self.0 * rhs.0)
    }

    fn abs(self) -> Self {
        Real(self.0.abs())
    }

    fn is_positive(self) -> bool {
        self.0 > 0.0
    }
}

fn reals(values: &[f32]) -> Vec<Real> {
    values.iter().map(|x| Real(*x)).collect()
}

fn gen(req: GenReq) -> Real {
    match req {
        GenReq::Weight { l: 0, i_l, i_n } => Real((1 + 2 * i_n + i_l) as f32),
        GenReq::Weight { l: _, i_l: 0, .. } => Real(1.0),
        GenReq::Weight { .. } => Real(-1.0),
        GenReq::Bias { l: 1, i_l: 0 } => Real(0.5),
        GenReq::Bias { l: 1, i_l: _ } => Real(-20.0),
        GenReq::Bias { .. } => Real(1.0),
    }
}

fn network() -> NNetwork<Real> {
    NNetwork::new(&[2, 2, 1], gen).unwrap()
}

#[test]
fn valid_sizes_give_matching_shapes() {
    let sizes: [&[usize]; 4] = [&[1, 1], &[3, 5, 8], &[7, 1, 4, 2], &[2, 9, 9, 1, 6]];
    for size in sizes {
        let net = NNetwork::new(size, |_| Real(0.0)).unwrap();
        for l in 0..size.len() - 1 {
            assert_eq!(net.shape(l), Some((size[l + 1], size[l])));
            assert!(net.weight(l, size[l] - 1, size[l + 1] - 1).is_some());
            assert_eq!(net.weight(l, size[l], 0), None);
            assert_eq!(net.weight(l, 0, size[l + 1]), None);
            assert!(net.bias(l + 1, size[l + 1] - 1).is_some());
            assert_eq!(net.bias(l + 1, size[l + 1]), None);
        }
        assert_eq!(net.shape(size.len() - 1), None);
        assert_eq!(net.bias(size.len(), 0), None);
        assert_eq!(net.bias(0, 0), None);
    }
}

#[test]
fn first_empty_layer_is_reported() {
    let built: Result<NNetwork<Real>, Error> = NNetwork::new(&[0, 3, 0, 0], |_| Real(0.0));
    assert_eq!(built, Err(Error::WrongLayerSize(0)));
    let built: Result<NNetwork<Real>, Error> = NNetwork::new(&[4, 3, 0, 0], |_| Real(0.0));
    assert_eq!(built, Err(Error::WrongLayerSize(2)));
    let built: Result<NNetwork<Real>, Error> = NNetwork::new(&[0], |_| Real(0.0));
    assert_eq!(built, Err(Error::WrongSize));
}

#[test]
fn generator_is_asked_for_weights_by_column_and_then_for_biases() {
    let asked: RefCell<Vec<(usize, usize, usize)>> = RefCell::new(Vec::new());
    let net = NNetwork::new(&[2, 3, 1], |req| {
        match req {
            GenReq::Weight { l, i_l, i_n } => asked.borrow_mut().push((l, i_l, i_n)),
            GenReq::Bias { l, i_l } => asked.borrow_mut().push((l, i_l, 100)),
        }
        Real(0.0)
    });
    assert!(net.is_ok());
    assert_eq!(
        asked.into_inner(),
        vec![
            (0, 0, 0),
            (0, 0, 1),
            (0, 0, 2),
            (0, 1, 0),
            (0, 1, 1),
            (0, 1, 2),
            (1, 0, 0),
            (1, 1, 0),
            (1, 2, 0),
            (1, 0, 100),
            (1, 1, 100),
            (1, 2, 100),
            (2, 0, 100),
        ]
    );
}

#[test]
fn inputs_of_the_wrong_length_are_reported() {
    let net = network();
    assert_eq!(net.check_inputs(&reals(&[1.0, 2.0])), Ok(()));
    assert_eq!(net.check_inputs(&reals(&[1.0])), Err(Error::WrongInputSize));
    assert_eq!(
        net.check_inputs(&reals(&[1.0, 2.0, 3.0])),
        Err(Error::WrongInputSize)
    );
}

#[test]
fn checked_evaluation_reports_inputs_of_the_wrong_length() {
    let net = network();
    let activation = LeakyRelu(Real(0.5));
    assert_eq!(
        net.try_eval(reals(&[1.0, 2.0]), &activation),
        Ok(reals(&[11.0]))
    );
    assert_eq!(
        net.try_eval(reals(&[1.0]), &activation),
        Err(Error::WrongInputSize)
    );
    assert_eq!(
        net.try_eval(Vec::new(), &activation),
        Err(Error::WrongInputSize)
    );
    let inter = net
        .try_eval_intermediate(reals(&[1.0, 2.0]), &activation)
        .unwrap();
    assert_eq!(inter.activs.last(), Some(&reals(&[11.0])));
    assert_eq!(inter.sums, vec![reals(&[5.0, 11.0]), reals(&[10.0])]);
    let refused = net.try_eval_intermediate(reals(&[1.0, 2.0, 3.0]), &activation);
    assert_eq!(refused.err(), Some(Error::WrongInputSize));
}

#[test]
fn evaluation_keeps_activations_and_weighted_sums() {
    let net = network();
    let activation = LeakyRelu(Real(0.5));
    let inter = net.eval_intermediate(reals(&[1.0, 2.0]), &activation);
    assert_eq!(
        inter.activs,
        vec![reals(&[1.0, 2.0]), reals(&[5.5, -4.5]), reals(&[11.0])]
    );
    // The weighted sums are kept as they are before the biases are added.
    assert_eq!(inter.sums, vec![reals(&[5.0, 11.0]), reals(&[10.0])]);
    assert_eq!(net.eval(reals(&[1.0, 2.0]), &activation), reals(&[11.0]));
    assert!(net.accepts(&inter));
}

#[test]
fn records_of_another_shape_are_not_accepted() {
    let net = network();
    let activation = LeakyRelu(Real(0.5));
    let inter = net.eval_intermediate(reals(&[1.0, 2.0]), &activation);
    let mut short = inter.clone();
    short.activs.pop();
    assert!(!net.accepts(&short));
    let mut wide = inter.clone();
    wide.sums[0].push(Real(0.0));
    assert!(!net.accepts(&wide));
    let mut narrow = inter.clone();
    narrow.activs[1].pop();
    assert!(!net.accepts(&narrow));
    let empty = Intermediate {
        activs: Vec::new(),
        sums: Vec::new(),
    };
    assert!(!net.accepts(&empty));
}

#[test]
fn backpropagation_descends_along_the_gradient() {
    let mut net = network();
    let activation = LeakyRelu(Real(0.5));
    let error = SquareError {
        expected: reals(&[10.0]),
    };
    let inter = net.eval_intermediate(reals(&[1.0, 2.0]), &activation);
    let (err, derivs) = net.backprop_deriv(inter, &activation, &error, Real(0.25));
    assert_eq!(err, Real(1.0));
    assert_eq!(derivs, reals(&[-4.0, -4.0]));

    assert_eq!(net.bias(2, 0), Some(Real(0.5)));
    assert_eq!(net.weight(1, 0, 0), Some(Real(-1.75)));
    assert_eq!(net.weight(1, 1, 0), Some(Real(1.25)));

    assert_eq!(net.bias(1, 0), Some(Real(0.0)));
    assert_eq!(net.bias(1, 1), Some(Real(-19.5)));
    assert_eq!(net.weight(0, 0, 0), Some(Real(0.5)));
    assert_eq!(net.weight(0, 1, 0), Some(Real(1.0)));
    assert_eq!(net.weight(0, 0, 1), Some(Real(3.5)));
    assert_eq!(net.weight(0, 1, 1), Some(Real(5.0)));

    assert_eq!(net.shape(0), Some((2, 2)));
    assert_eq!(net.shape(1), Some((1, 2)));
}

#[test]
fn backprop_returns_the_error_alone() {
    let activation = LeakyRelu(Real(0.5));
    let error = Sum {
        expected: reals(&[8.0]),
    };
    let mut with_derivs = network();
    let inter = with_derivs.eval_intermediate(reals(&[1.0, 2.0]), &activation);
    let (err, _) = with_derivs.backprop_deriv(inter.clone(), &activation, &error, Real(0.25));
    let mut without = network();
    assert_eq!(
        without.backprop(inter, &activation, &error, Real(0.25)),
        err
    );
    assert_eq!(err, Real(3.0));
    assert_eq!(with_derivs, without);
    // The derivative of this error is the sign of the difference, 1.
    assert_eq!(without.bias(2, 0), Some(Real(0.75)));
}

fn seeded_run(seed: u64, steps: usize) -> NNetwork<Real> {
    let rng = RefCell::new(Rng::with_seed(seed));
    let mut net = NNetwork::new(&[3, 5, 8], |_| Real(rng.borrow_mut().f32() * 4.0 - 2.0)).unwrap();
    let activation = LeakyRelu(Real(0.1));
    let error = Sum {
        expected: reals(&[1.0, 0.1, 0.4, 0.3, 0.5, 0.2, 0.7, 0.8]),
    };
    let mut inputs = Rng::with_seed(seed + 1);
    for _ in 0..steps {
        let input = reals(&[inputs.f32(), inputs.f32(), inputs.f32()]);
        let inter = net.eval_intermediate(input, &activation);
        net.backprop(inter, &activation, &error, Real(0.01));
    }
    net
}

#[test]
fn same_seed_and_inputs_give_the_same_weights() {
    assert_eq!(seeded_run(11, 0), seeded_run(11, 0));
    assert_eq!(seeded_run(11, 200), seeded_run(11, 200));
    assert_ne!(seeded_run(11, 200), seeded_run(12, 200));
    assert_ne!(seeded_run(11, 200), seeded_run(11, 201));
}
