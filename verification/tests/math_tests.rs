use f256::f256;
use resistor_net::math::{erff256, exp256, factorial256, gammaf256, powf256, powi256};
use resistor_net::scalar::{from_f256, to_f256, Scalar};

fn s(x: f64) -> Scalar {
    from_f256(f256::from(x))
}

fn to_f64(v: Scalar) -> f64 {
    to_f256(v).to_string().parse::<f64>().unwrap()
}

fn assert_rel_eq(actual: f64, expected: f64, eps: f64) {
    assert!(
        (actual - expected).abs() <= eps * expected.abs().max(1.0),
        "actual {} expected {}",
        actual,
        expected
    );
}

const EPS: f64 = 1e-5;

#[test]
fn test_exp() {
    let x: f64 = 3.0;
    let actual = to_f64(exp256(s(x)));
    let expected = x.exp();
    assert_rel_eq(actual, expected, EPS);

    let x: f64 = 1.1;
    let actual = to_f64(exp256(s(x)));
    let expected = x.exp();
    assert_rel_eq(actual, expected, EPS);

    let x: f64 = 0.5;
    let actual = to_f64(exp256(s(x)));
    let expected = x.exp();
    assert_rel_eq(actual, expected, EPS);

    let x: f64 = 0.001;
    let actual = to_f64(exp256(s(x)));
    let expected = x.exp();
    assert_rel_eq(actual, expected, EPS);
}

#[test]
fn test_gamma() {
    let x = 5.0;
    let expected = 24.0;
    let actual = to_f64(gammaf256(s(x)));
    assert_rel_eq(actual, expected, EPS);

    let x = 0.5;
    let expected = std::f64::consts::PI.sqrt();
    let actual = to_f64(gammaf256(s(x)));
    assert_rel_eq(actual, expected, EPS);
}

#[test]
fn test_erf() {
    // erf at zero vanishes, up to the approximation's own error.
    let at_zero = to_f64(erff256(from_f256(f256::ZERO)));
    assert!(at_zero.abs() <= 1e-6, "erf(0) was {}", at_zero);

    // erf tends to one for large arguments.
    let large = to_f64(erff256(s(6.0)));
    assert_rel_eq(large, 1.0, 1e-6);

    // Odd symmetry through the folded sign.
    let pos = to_f64(erff256(s(0.75)));
    let neg = to_f64(erff256(s(-0.75)));
    assert_rel_eq(neg, -pos, 1e-12);

    // A tabulated value, within the approximation's stated error.
    let mid = to_f64(erff256(from_f256(f256::ONE)));
    assert_rel_eq(mid, 0.8427007929497149, 1e-6);
}

#[test]
fn test_powi_factorial() {
    assert_eq!(to_f64(factorial256(0)), 1.0);
    assert_eq!(to_f64(factorial256(5)), 120.0);
    assert_eq!(to_f64(powi256(s(2.0), 10)), 1024.0);
    assert_eq!(to_f64(powi256(s(7.0), 0)), 1.0);
}

#[test]
fn test_powf() {
    let actual = to_f64(powf256(s(2.0), s(0.5)));
    assert_rel_eq(actual, 2.0f64.sqrt(), EPS);
    let actual = to_f64(powf256(s(9.0), s(0.5)));
    assert_rel_eq(actual, 3.0, EPS);
}
