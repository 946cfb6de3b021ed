use rann::activ::LeakyRelu;
use rann::fixed::{Fixed, UNIT};
use rann::full::Full;
use rann::{Network, Scalar};

/// The fixed-point number nearest to `x`.
fn fixed(x: f64) -> Fixed {
    Fixed((x * UNIT as f64).round() as i64)
}

#[test]
fn fixed_point_arithmetic_is_exact_on_small_numbers() {
    assert_eq!(Fixed::zero(), Fixed(0));
    assert_eq!(Fixed::one(), Fixed(65536));
    assert_eq!(fixed(1.5), Fixed(98304));
    assert_eq!(fixed(1.5).plus(fixed(2.25)), fixed(3.75));
    assert_eq!(fixed(1.5).minus(fixed(2.25)), fixed(-0.75));
    assert_eq!(fixed(1.5).times(fixed(2.0)), fixed(3.0));
    assert_eq!(fixed(-1.5).times(fixed(2.0)), fixed(-3.0));
    assert_eq!(fixed(-1.5).times(fixed(-0.5)), fixed(0.75));
    assert_eq!(fixed(-1.5).abs(), fixed(1.5));
    assert_eq!(fixed(1.5).abs(), fixed(1.5));
    assert!(fixed(0.25).is_positive());
    assert!(!fixed(0.0).is_positive());
    assert!(!fixed(-0.25).is_positive());
}

#[test]
fn fixed_point_products_round_towards_zero() {
    assert_eq!(Fixed(1).times(Fixed(1)), Fixed(0));
    assert_eq!(Fixed(-1).times(Fixed(65535)), Fixed(0));
    assert_eq!(Fixed(3).times(Fixed(32768)), Fixed(1));
    assert_eq!(Fixed(-3).times(Fixed(32768)), Fixed(-1));
}

#[test]
fn fixed_point_results_stay_in_range() {
    let max = Fixed(i64::MAX);
    let min = Fixed(i64::MIN);
    assert_eq!(max.plus(Fixed(1)), max);
    assert_eq!(min.plus(Fixed(-1)), min);
    assert_eq!(min.minus(Fixed(1)), min);
    assert_eq!(max.minus(Fixed(-1)), max);
    assert_eq!(min.abs(), max);
    assert_eq!(max.times(fixed(2.0)), max);
    assert_eq!(max.times(fixed(-2.0)), min);
    assert_eq!(min.times(min), max);
    assert_eq!(max.times(Fixed::one()), max);
}

#[test]
fn layer_over_fixed_point_numbers() {
    let weights = [fixed(1.5), fixed(-2.0)];
    let mut layer: Full<2, 1, LeakyRelu<Fixed>> = Full::new(
        LeakyRelu(fixed(0.5)),
        (|input: usize, _| weights[input], |_| fixed(0.25)),
    );
    let inputs = [fixed(2.0), fixed(1.0)];
    let inter = layer.intermediate(&inputs);
    assert_eq!(inter.weighted_sums, [fixed(1.25)]);
    assert_eq!(inter.outputs, [fixed(1.25)]);
    let back = layer.train_deriv(&inputs, &inter, &[fixed(2.0)], fixed(0.25));
    assert_eq!(back, [fixed(3.0), fixed(-4.0)]);
    assert_eq!(*layer.biases(), [fixed(-0.25)]);
    assert_eq!(*layer.weights(), [[fixed(0.5), fixed(-2.5)]]);
}
