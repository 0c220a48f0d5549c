//! The extended-precision scalar and its primitive operations.
//!
//! A `Scalar` is the raw 256-bit pattern of an `f256` from the `f256`
//! crate — a software floating-point value with a 237-bit significand —
//! held as two plain 128-bit words.  Every f256 operation is a pure
//! function of its operands' bits, so each primitive is a thin trusted
//! wrapper that converts bits to `f256` and back and whose contract names
//! its result: `add_bits`, `mul_bits` and the rest stand for exactly what
//! the crate's arithmetic returns on those bits.  Nothing is assumed
//! about the named values — rounded arithmetic has no short description —
//! but naming them makes every computation above a pinned composition:
//! two equal inputs provably give equal results, and a contract can say
//! precisely which composition of primitives a function returns.
//!
//! The `spec_*` functions wrap the names over `Scalar` values; all
//! higher contracts are written in terms of them.

use vstd::prelude::*;

verus! {

/// An extended-precision value, as its raw bit pattern: the high and
/// low 128-bit halves of the underlying 256-bit word.
#[derive(Clone, Copy, Debug, PartialEq, Eq, Structural)]
pub struct Scalar {
    pub hi: u128,
    pub lo: u128,
}

/// The bit pattern of a scalar, as a plain pair.
pub open spec fn sbits(a: Scalar) -> (u128, u128) {
    (a.hi, a.lo)
}

/// The scalar holding the bit pattern `b`.
pub open spec fn scalar_of(b: (u128, u128)) -> Scalar {
    Scalar { hi: b.0, lo: b.1 }
}

// The results of the f256 primitives, named over raw bit patterns.
pub uninterp spec fn add_bits(a: (u128, u128), b: (u128, u128)) -> (u128, u128);

pub uninterp spec fn sub_bits(a: (u128, u128), b: (u128, u128)) -> (u128, u128);

pub uninterp spec fn mul_bits(a: (u128, u128), b: (u128, u128)) -> (u128, u128);

pub uninterp spec fn div_bits(a: (u128, u128), b: (u128, u128)) -> (u128, u128);

pub uninterp spec fn neg_bits(a: (u128, u128)) -> (u128, u128);

pub uninterp spec fn abs_bits(a: (u128, u128)) -> (u128, u128);

pub uninterp spec fn sqrt_bits(a: (u128, u128)) -> (u128, u128);

pub uninterp spec fn ln_bits(a: (u128, u128)) -> (u128, u128);

pub uninterp spec fn sin_bits(a: (u128, u128)) -> (u128, u128);

pub uninterp spec fn exp_native_bits(a: (u128, u128)) -> (u128, u128);

pub uninterp spec fn from_u64_bits(n: u64) -> (u128, u128);

pub uninterp spec fn eq_bits(a: (u128, u128), b: (u128, u128)) -> bool;

pub uninterp spec fn lt_bits(a: (u128, u128), b: (u128, u128)) -> bool;

// The same primitives over `Scalar` values: the vocabulary of every
// numeric contract in this crate.
pub open spec fn spec_add(a: Scalar, b: Scalar) -> Scalar {
    scalar_of(add_bits(sbits(a), sbits(b)))
}

pub open spec fn spec_sub(a: Scalar, b: Scalar) -> Scalar {
    scalar_of(sub_bits(sbits(a), sbits(b)))
}

pub open spec fn spec_mul(a: Scalar, b: Scalar) -> Scalar {
    scalar_of(mul_bits(sbits(a), sbits(b)))
}

pub open spec fn spec_div(a: Scalar, b: Scalar) -> Scalar {
    scalar_of(div_bits(sbits(a), sbits(b)))
}

pub open spec fn spec_neg(a: Scalar) -> Scalar {
    scalar_of(neg_bits(sbits(a)))
}

pub open spec fn spec_abs(a: Scalar) -> Scalar {
    scalar_of(abs_bits(sbits(a)))
}

pub open spec fn spec_sqrt(a: Scalar) -> Scalar {
    scalar_of(sqrt_bits(sbits(a)))
}

pub open spec fn spec_ln(a: Scalar) -> Scalar {
    scalar_of(ln_bits(sbits(a)))
}

pub open spec fn spec_sin(a: Scalar) -> Scalar {
    scalar_of(sin_bits(sbits(a)))
}

pub open spec fn spec_exp_native(a: Scalar) -> Scalar {
    scalar_of(exp_native_bits(sbits(a)))
}

pub open spec fn spec_from_u64(n: u64) -> Scalar {
    scalar_of(from_u64_bits(n))
}

pub open spec fn spec_eq(a: Scalar, b: Scalar) -> bool {
    eq_bits(sbits(a), sbits(b))
}

pub open spec fn spec_lt(a: Scalar, b: Scalar) -> bool {
    lt_bits(sbits(a), sbits(b))
}

// The constants, as the bit patterns the f256 crate defines for them:
// zero is the all-zero word; one, two and minus one place the biased
// exponent at bit 108 of the high half; pi is rounded to this format's
// leading 64 bits.
pub open spec fn zero_scalar() -> Scalar {
    Scalar { hi: 0, lo: 0 }
}

pub open spec fn one_scalar() -> Scalar {
    Scalar { hi: 85070267211680957439116868701921476608u128, lo: 0 }
}

pub open spec fn two_scalar() -> Scalar {
    Scalar { hi: 85070591730234615865843651857942052864u128, lo: 0 }
}

pub open spec fn neg_one_scalar() -> Scalar {
    Scalar { hi: 255211450672150189170804172417805582336u128, lo: 0 }
}

pub open spec fn pi_scalar() -> Scalar {
    Scalar { hi: 85070776964233020888359549780463976448u128, lo: 0 }
}

/// Additive identity: the bit pattern of f256::ZERO.
pub(crate) fn scalar_zero() -> (r: Scalar)
    ensures
        r == zero_scalar(),
{
    Scalar { hi: 0, lo: 0 }
}

/// Multiplicative identity: the bit pattern of f256::ONE.
pub(crate) fn scalar_one() -> (r: Scalar)
    ensures
        r == one_scalar(),
{
    Scalar { hi: 85070267211680957439116868701921476608u128, lo: 0 }
}

/// The constant two: the bit pattern of f256::TWO.
pub(crate) fn scalar_two() -> (r: Scalar)
    ensures
        r == two_scalar(),
{
    Scalar { hi: 85070591730234615865843651857942052864u128, lo: 0 }
}

/// The constant minus one: the bit pattern of f256::NEG_ONE.
pub(crate) fn scalar_neg_one() -> (r: Scalar)
    ensures
        r == neg_one_scalar(),
{
    Scalar { hi: 255211450672150189170804172417805582336u128, lo: 0 }
}

/// The constant pi, rounded to this format's leading 64 bits.
pub(crate) fn scalar_pi() -> (r: Scalar)
    ensures
        r == pi_scalar(),
{
    Scalar { hi: 85070776964233020888359549780463976448u128, lo: 0 }
}

/// Relies on the `Add` impl of f256: correctly rounded addition, a pure
/// function of the operand bits, named `add_bits`.
#[verifier::external_body]
pub(crate) fn scalar_add(a: Scalar, b: Scalar) -> (r: Scalar)
    ensures
        sbits(r) == add_bits(sbits(a), sbits(b)),
{
    let v = f256::f256::from_bits((a.hi, a.lo)) + f256::f256::from_bits((b.hi, b.lo));
    let (hi, lo) = v.to_bits();
    Scalar { hi, lo }
}

/// Relies on the `Sub` impl of f256: correctly rounded subtraction,
/// named `sub_bits`.
#[verifier::external_body]
pub(crate) fn scalar_sub(a: Scalar, b: Scalar) -> (r: Scalar)
    ensures
        sbits(r) == sub_bits(sbits(a), sbits(b)),
{
    let v = f256::f256::from_bits((a.hi, a.lo)) - f256::f256::from_bits((b.hi, b.lo));
    let (hi, lo) = v.to_bits();
    Scalar { hi, lo }
}

/// Relies on the `Mul` impl of f256: correctly rounded multiplication,
/// named `mul_bits`.
#[verifier::external_body]
pub(crate) fn scalar_mul(a: Scalar, b: Scalar) -> (r: Scalar)
    ensures
        sbits(r) == mul_bits(sbits(a), sbits(b)),
{
    let v = f256::f256::from_bits((a.hi, a.lo)) * f256::f256::from_bits((b.hi, b.lo));
    let (hi, lo) = v.to_bits();
    Scalar { hi, lo }
}

/// Relies on the `Div` impl of f256: correctly rounded division, named
/// `div_bits` (a zero divisor yields an infinity or NaN, no panic).
#[verifier::external_body]
pub(crate) fn scalar_div(a: Scalar, b: Scalar) -> (r: Scalar)
    ensures
        sbits(r) == div_bits(sbits(a), sbits(b)),
{
    let v = f256::f256::from_bits((a.hi, a.lo)) / f256::f256::from_bits((b.hi, b.lo));
    let (hi, lo) = v.to_bits();
    Scalar { hi, lo }
}

/// Relies on the `Neg` impl of f256: sign flip, named `neg_bits`.
#[verifier::external_body]
pub(crate) fn scalar_neg(a: Scalar) -> (r: Scalar)
    ensures
        sbits(r) == neg_bits(sbits(a)),
{
    let v = -f256::f256::from_bits((a.hi, a.lo));
    let (hi, lo) = v.to_bits();
    Scalar { hi, lo }
}

/// Relies on f256::abs: the absolute value, named `abs_bits`.
#[verifier::external_body]
pub(crate) fn scalar_abs(a: Scalar) -> (r: Scalar)
    ensures
        sbits(r) == abs_bits(sbits(a)),
{
    let v = f256::f256::from_bits((a.hi, a.lo)).abs();
    let (hi, lo) = v.to_bits();
    Scalar { hi, lo }
}

/// Relies on f256::sqrt: the correctly rounded square root (NaN for a
/// negative argument), named `sqrt_bits`.
#[verifier::external_body]
pub(crate) fn scalar_sqrt(a: Scalar) -> (r: Scalar)
    ensures
        sbits(r) == sqrt_bits(sbits(a)),
{
    let v = f256::f256::from_bits((a.hi, a.lo)).sqrt();
    let (hi, lo) = v.to_bits();
    Scalar { hi, lo }
}

/// Relies on f256::ln: the natural logarithm (minus infinity at zero,
/// NaN below it), named `ln_bits`.
#[verifier::external_body]
pub(crate) fn scalar_ln(a: Scalar) -> (r: Scalar)
    ensures
        sbits(r) == ln_bits(sbits(a)),
{
    let v = f256::f256::from_bits((a.hi, a.lo)).ln();
    let (hi, lo) = v.to_bits();
    Scalar { hi, lo }
}

/// Relies on f256::sin: the sine, named `sin_bits`.
#[verifier::external_body]
pub(crate) fn scalar_sin(a: Scalar) -> (r: Scalar)
    ensures
        sbits(r) == sin_bits(sbits(a)),
{
    let v = f256::f256::from_bits((a.hi, a.lo)).sin();
    let (hi, lo) = v.to_bits();
    Scalar { hi, lo }
}

/// Relies on f256::exp: the crate's own exponential (used by the error
/// function; the solver's generic exponential is the fixed Taylor sum in
/// the math module), named `exp_native_bits`.
#[verifier::external_body]
pub(crate) fn scalar_exp_native(a: Scalar) -> (r: Scalar)
    ensures
        sbits(r) == exp_native_bits(sbits(a)),
{
    let v = f256::f256::from_bits((a.hi, a.lo)).exp();
    let (hi, lo) = v.to_bits();
    Scalar { hi, lo }
}

/// Relies on the `From<u64>` impl of f256: exact conversion of an
/// unsigned integer (the 237-bit significand holds any u64 exactly),
/// named `from_u64_bits`.
#[verifier::external_body]
pub(crate) fn scalar_from_u64(n: u64) -> (r: Scalar)
    ensures
        sbits(r) == from_u64_bits(n),
{
    let (hi, lo) = f256::f256::from(n).to_bits();
    Scalar { hi, lo }
}

/// Relies on the `PartialEq` impl of f256: numeric equality of the two
/// bit patterns (distinct from bitwise identity — NaN compares unequal
/// to everything, and the two zeros compare equal), named `eq_bits`.
#[verifier::external_body]
pub(crate) fn scalar_eq(a: Scalar, b: Scalar) -> (r: bool)
    ensures
        r == eq_bits(sbits(a), sbits(b)),
{
    f256::f256::from_bits((a.hi, a.lo)) == f256::f256::from_bits((b.hi, b.lo))
}

/// Relies on the `PartialOrd` impl of f256: the strict numeric
/// less-than test (false whenever either operand is NaN), named
/// `lt_bits`.
#[verifier::external_body]
pub(crate) fn scalar_lt(a: Scalar, b: Scalar) -> (r: bool)
    ensures
        r == lt_bits(sbits(a), sbits(b)),
{
    f256::f256::from_bits((a.hi, a.lo)) < f256::f256::from_bits((b.hi, b.lo))
}

#[verifier::external_type_specification]
#[verifier::external_body]
pub struct ExF256(f256::f256);

/// Relies on f256::to_bits, a raw transmutation: the boundary in from
/// the f256 values the outside world holds.
#[verifier::external_body]
pub fn from_f256(x: f256::f256) -> Scalar {
    let (hi, lo) = x.to_bits();
    Scalar { hi, lo }
}

/// Relies on f256::from_bits, a raw transmutation: the boundary out to
/// the f256 values reports and exports are written from.
#[verifier::external_body]
pub fn to_f256(s: Scalar) -> f256::f256 {
    f256::f256::from_bits((s.hi, s.lo))
}

/// Names the precision a scalar realization runs at, for reports and
/// export file names.
pub trait PrecisionStr {
    fn precision_str() -> String;
}

impl PrecisionStr for Scalar {
    fn precision_str() -> String {
        "f256".to_owned()
    }
}

} // verus!
