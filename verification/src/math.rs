//! Transcendental functions at extended precision.
//!
//! The exponential is a fixed 50-term Taylor sum (no range reduction: the
//! solver's inputs are bounded by construction), the gamma function a
//! 9-term Lanczos approximation with reflection for arguments below one
//! half, and the error function a 5-term Abramowitz–Stegun rational
//! approximation.  The term counts and coefficients are fixed
//! deliberately; each function's contract pins it to the exact
//! composition of named primitives, so the term counts and coefficients
//! are part of the specification, not just the bodies.
//!
//! The coefficients are given as an exact integer significand over a
//! power of two, the decomposition of the double-precision constant each
//! one rounds to; rebuilding them this way yields bit-identical scalars
//! without writing a float in this crate.

use vstd::prelude::*;

verus! {

use crate::scalar::{
    scalar_abs, scalar_add, scalar_div, scalar_exp_native, scalar_from_u64, scalar_lt, scalar_ln,
    scalar_mul, scalar_neg, scalar_one, scalar_sin, scalar_sqrt, scalar_sub, scalar_two,
    scalar_zero, one_scalar, two_scalar, zero_scalar, spec_abs,
    spec_add, spec_div, spec_exp_native, spec_from_u64, spec_lt, spec_ln, spec_mul, spec_neg,
    spec_sin, spec_sqrt, spec_sub, Scalar,
};

/// Number of Taylor terms the exponential sums, after the leading one.
pub const EXP_ITERS: u64 = 50;

/// The factorial as the scalar product one * 1 * 2 * ... * n.
pub open spec fn spec_factorial(n: int) -> Scalar
    decreases n,
{
    if n <= 0 {
        one_scalar()
    } else {
        spec_mul(spec_factorial(n - 1), spec_from_u64(n as u64))
    }
}

/// The n-th power as the scalar product one * x * ... * x.
pub open spec fn spec_powi(x: Scalar, n: int) -> Scalar
    decreases n,
{
    if n <= 0 {
        one_scalar()
    } else {
        spec_mul(spec_powi(x, n - 1), x)
    }
}

/// The sum of the first `n` Taylor terms x^k / k!, k from 1 to n.
pub open spec fn spec_exp_sum(x: Scalar, n: int) -> Scalar
    decreases n,
{
    if n <= 0 {
        zero_scalar()
    } else {
        spec_add(spec_exp_sum(x, n - 1), spec_div(spec_powi(x, n), spec_factorial(n)))
    }
}

/// The fixed-term exponential: one plus the 50-term Taylor sum.
pub open spec fn spec_exp256(x: Scalar) -> Scalar {
    spec_add(one_scalar(), spec_exp_sum(x, EXP_ITERS as int))
}

/// The power function as exp(x * ln b).
pub open spec fn spec_powf256(b: Scalar, x: Scalar) -> Scalar {
    spec_exp256(spec_mul(x, spec_ln(b)))
}

/// A coefficient rebuilt exactly from its decomposition: `num` over two
/// to the `k`, negated when `neg` is set.
pub open spec fn spec_coefficient(num: u64, k: u64, neg: bool) -> Scalar {
    let v = spec_div(spec_from_u64(num), spec_powi(two_scalar(), k as int));
    if neg {
        spec_neg(v)
    } else {
        v
    }
}

/// The product of the integers from one to `n`, as a scalar; one when
/// `n` is zero.
pub fn factorial256(n: u64) -> (r: Scalar)
    ensures
        r == spec_factorial(n as int),
{
    let mut acc = scalar_one();
    let mut i: u64 = 0;
    while i < n
        invariant
            i <= n,
            acc == spec_factorial(i as int),
        decreases n - i,
    {
        i = i + 1;
        acc = scalar_mul(acc, scalar_from_u64(i));
    }
    acc
}

/// `x` multiplied by itself `n` times; one when `n` is zero.
pub fn powi256(x: Scalar, n: u64) -> (r: Scalar)
    ensures
        r == spec_powi(x, n as int),
{
    let mut acc = scalar_one();
    let mut i: u64 = 0;
    while i < n
        invariant
            i <= n,
            acc == spec_powi(x, i as int),
        decreases n - i,
    {
        i = i + 1;
        acc = scalar_mul(acc, x);
    }
    acc
}

/// The exponential of `x` as the fixed Taylor sum
/// one plus the sum over n of x^n / n!.
///
/// The power and factorial of term n are grown incrementally; each is
/// the same multiplication chain `powi256` and `factorial256` perform,
/// so every term — and the sum — is the value those functions give.
pub fn exp256(x: Scalar) -> (r: Scalar)
    ensures
        r == spec_exp256(x),
{
    let mut sum = scalar_zero();
    let mut pow = scalar_one();
    let mut fact = scalar_one();
    let mut n: u64 = 0;
    while n < EXP_ITERS
        invariant
            n <= EXP_ITERS,
            sum == spec_exp_sum(x, n as int),
            pow == spec_powi(x, n as int),
            fact == spec_factorial(n as int),
        decreases EXP_ITERS - n,
    {
        n = n + 1;
        pow = scalar_mul(pow, x);
        fact = scalar_mul(fact, scalar_from_u64(n));
        sum = scalar_add(sum, scalar_div(pow, fact));
    }
    scalar_add(scalar_one(), sum)
}

/// `b` raised to the power `x`, as exp(x * ln b).
pub fn powf256(b: Scalar, x: Scalar) -> (r: Scalar)
    ensures
        r == spec_powf256(b, x),
{
    exp256(scalar_mul(x, scalar_ln(b)))
}

/// A coefficient rebuilt exactly from its decomposition: `num` divided by
/// two to the `k`, negated when `neg` is set.
fn coefficient(num: u64, k: u64, neg: bool) -> (r: Scalar)
    ensures
        r == spec_coefficient(num, k, neg),
{
    let v = scalar_div(scalar_from_u64(num), powi256(scalar_two(), k));
    if neg {
        scalar_neg(v)
    } else {
        v
    }
}

/// Pi rounded to double precision, the constant the gamma approximation
/// was calibrated with.
pub open spec fn spec_pi_double() -> Scalar {
    spec_coefficient(884279719003555, 48, false)
}

fn pi_double() -> (r: Scalar)
    ensures
        r == spec_pi_double(),
{
    coefficient(884279719003555, 48, false)
}

/// The numerator-over-power-of-two decomposition of tail term `i` of
/// the Lanczos series, for `i` from one to eight.
pub open spec fn lanczos_coefficient(i: int) -> (u64, u64, bool) {
    if i == 1 {
        (5950736089418501, 43, false)
    } else if i == 2 {
        (5537752839100187, 42, true)
    } else if i == 3 {
        (848079078717083, 40, false)
    } else if i == 4 {
        (6214088902520669, 45, true)
    } else if i == 5 {
        (7041008316161153, 49, false)
    } else if i == 6 {
        (4992549864024149, 55, true)
    } else if i == 7 {
        (5893731530977871, 69, false)
    } else {
        (5688119651184367, 75, false)
    }
}

/// The partial Lanczos series: the leading coefficient plus the first
/// `n` tail terms p_i / (z1 + i).
pub open spec fn spec_lanczos_sum(z1: Scalar, n: int) -> Scalar
    decreases n,
{
    if n <= 0 {
        spec_coefficient(562949953421205, 49, false)
    } else {
        let (num, k, neg) = lanczos_coefficient(n);
        spec_add(
            spec_lanczos_sum(z1, n - 1),
            spec_div(spec_coefficient(num, k, neg), spec_add(z1, spec_from_u64(n as u64))),
        )
    }
}

/// The Lanczos branch for arguments of one half and above:
/// sqrt(2 pi) * t^(z1 + 1/2) * exp(-t) * series, with z1 = z - 1 and
/// t = z1 + 7 + 1/2.
pub open spec fn spec_gamma_lanczos(z: Scalar) -> Scalar {
    let half = spec_div(one_scalar(), two_scalar());
    let pi = spec_pi_double();
    let z1 = spec_sub(z, one_scalar());
    let t = spec_add(spec_add(z1, spec_from_u64(7)), half);
    spec_mul(
        spec_mul(
            spec_mul(
                spec_sqrt(spec_mul(two_scalar(), pi)),
                spec_powf256(t, spec_add(z1, half)),
            ),
            spec_exp256(spec_neg(t)),
        ),
        spec_lanczos_sum(z1, 8),
    )
}

/// The gamma function: the Lanczos branch directly for arguments of one
/// half and above, and through the reflection identity
/// gamma(z) = pi / (sin(pi z) * gamma(1 - z)) below one half.
pub open spec fn spec_gamma(z: Scalar) -> Scalar {
    let half = spec_div(one_scalar(), two_scalar());
    let pi = spec_pi_double();
    if spec_lt(z, half) {
        spec_div(
            pi,
            spec_mul(spec_sin(spec_mul(z, pi)), spec_gamma_lanczos(spec_sub(one_scalar(), z))),
        )
    } else {
        spec_gamma_lanczos(z)
    }
}

/// The decomposition of tail term `i + 1` of the Lanczos series.
fn lanczos_term(i: usize) -> (r: (u64, u64, bool))
    requires
        i < 8,
    ensures
        r == lanczos_coefficient(i as int + 1),
{
    let coeffs: [(u64, u64, bool); 8] = [
        (5950736089418501, 43, false),
        (5537752839100187, 42, true),
        (848079078717083, 40, false),
        (6214088902520669, 45, true),
        (7041008316161153, 49, false),
        (4992549864024149, 55, true),
        (5893731530977871, 69, false),
        (5688119651184367, 75, false),
    ];
    coeffs[i]
}

/// The Lanczos sum for arguments of one half and above: the 9-term
/// series with g equal to seven.
fn gamma_lanczos(z: Scalar) -> (r: Scalar)
    ensures
        r == spec_gamma_lanczos(z),
{
    let half = scalar_div(scalar_one(), scalar_two());
    let pi = pi_double();
    let g = scalar_from_u64(7);

    let z1 = scalar_sub(z, scalar_one());
    let mut x = coefficient(562949953421205, 49, false);
    let mut i: usize = 0;
    while i < 8
        invariant
            i <= 8,
            x == spec_lanczos_sum(z1, i as int),
        decreases 8 - i,
    {
        let (num, k, neg) = lanczos_term(i);
        let p_i = coefficient(num, k, neg);
        x = scalar_add(x, scalar_div(p_i, scalar_add(z1, scalar_from_u64((i + 1) as u64))));
        i = i + 1;
    }
    let t = scalar_add(scalar_add(z1, g), half);
    scalar_mul(
        scalar_mul(
            scalar_mul(scalar_sqrt(scalar_mul(scalar_two(), pi)), powf256(t, scalar_add(z1, half))),
            exp256(scalar_neg(t)),
        ),
        x,
    )
}

/// The gamma function: the Lanczos sum directly for arguments of one half
/// and above, and through the reflection identity
/// gamma(z) = pi / (sin(pi z) * gamma(1 - z)) below one half.
pub fn gammaf256(z: Scalar) -> (r: Scalar)
    ensures
        r == spec_gamma(z),
{
    let half = scalar_div(scalar_one(), scalar_two());
    if scalar_lt(z, half) {
        let pi = pi_double();
        scalar_div(
            pi,
            scalar_mul(
                scalar_sin(scalar_mul(z, pi)),
                gamma_lanczos(scalar_sub(scalar_one(), z)),
            ),
        )
    } else {
        gamma_lanczos(z)
    }
}

/// The error function as the 5-term rational approximation with the
/// sign folded out front.
pub open spec fn spec_erf(x: Scalar) -> Scalar {
    let sign = if spec_lt(x, zero_scalar()) {
        spec_neg(one_scalar())
    } else {
        one_scalar()
    };
    let xa = spec_abs(x);
    let a1 = spec_coefficient(2295300911148351, 53, false);
    let a2 = spec_coefficient(5125037576950889, 54, true);
    let a3 = spec_coefficient(6401478394306903, 52, false);
    let a4 = spec_coefficient(6544414927309881, 52, true);
    let a5 = spec_coefficient(4780145094533421, 52, false);
    let p = spec_coefficient(1475339155889891, 52, false);
    let t = spec_div(one_scalar(), spec_add(one_scalar(), spec_mul(p, xa)));
    let temp = spec_exp_native(spec_neg(spec_mul(xa, xa)));
    let poly = spec_mul(
        t,
        spec_add(
            a1,
            spec_mul(
                t,
                spec_add(a2, spec_mul(t, spec_add(a3, spec_mul(t, spec_add(a4, spec_mul(a5, t)))))),
            ),
        ),
    );
    spec_mul(sign, spec_sub(one_scalar(), spec_mul(poly, temp)))
}

/// The error function: the 5-term Abramowitz–Stegun rational
/// approximation, with the sign folded out front.
pub fn erff256(x: Scalar) -> (r: Scalar)
    ensures
        r == spec_erf(x),
{
    let sign = if scalar_lt(x, scalar_zero()) {
        scalar_neg(scalar_one())
    } else {
        scalar_one()
    };
    let x = scalar_abs(x);

    let a1 = coefficient(2295300911148351, 53, false);
    let a2 = coefficient(5125037576950889, 54, true);
    let a3 = coefficient(6401478394306903, 52, false);
    let a4 = coefficient(6544414927309881, 52, true);
    let a5 = coefficient(4780145094533421, 52, false);
    let p = coefficient(1475339155889891, 52, false);

    let t = scalar_div(scalar_one(), scalar_add(scalar_one(), scalar_mul(p, x)));
    let temp = scalar_exp_native(scalar_neg(scalar_mul(x, x)));

    let poly = scalar_mul(
        t,
        scalar_add(
            a1,
            scalar_mul(
                t,
                scalar_add(
                    a2,
                    scalar_mul(t, scalar_add(a3, scalar_mul(t, scalar_add(a4, scalar_mul(a5, t))))),
                ),
            ),
        ),
    );

    scalar_mul(sign, scalar_sub(scalar_one(), scalar_mul(poly, temp)))
}

} // verus!
