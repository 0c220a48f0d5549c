//! Single-parameter probability distributions producing positive random
//! conductances by inverse-CDF sampling.
//!
//! Each distribution holds one scalar parameter, fixed at construction,
//! and is reusable across unbounded draws.  Randomness enters through
//! one trusted draw of 64 raw bits; everything after the draw is pinned:
//! `sample` returns exactly its family's `sample_model` — the inverse-CDF
//! composition of named primitives — applied to the scaled unit draw,
//! and `mean` returns exactly the closed-form `mean_model` it is
//! validated against.

use vstd::prelude::*;

verus! {

use crate::math::{erff256, exp256, gammaf256, powf256, spec_erf, spec_exp256, spec_gamma,
    spec_powf256};
use crate::scalar::{
    neg_one_scalar, one_scalar, pi_scalar, scalar_abs, scalar_add, scalar_div, scalar_from_u64,
    scalar_ln, scalar_mul, scalar_neg_one, scalar_one, scalar_pi, scalar_sqrt, scalar_sub,
    scalar_two, spec_abs, spec_add, spec_div, spec_from_u64, spec_ln, spec_mul, spec_sqrt,
    spec_sub, two_scalar, Scalar,
};

#[verifier::external_type_specification]
#[verifier::external_body]
pub struct ExStdRng(rand::rngs::StdRng);

/// Relies on SeedableRng::seed_from_u64 for StdRng: a deterministic
/// generator seeded from one 64-bit value, for reproducible runs.
#[verifier::external_body]
pub fn rng_from_seed(seed: u64) -> rand::rngs::StdRng {
    <rand::rngs::StdRng as rand::SeedableRng>::seed_from_u64(seed)
}

/// Relies on RngCore::next_u64 for StdRng: the next 64 random bits.
/// Nothing is promised of the value: every caller must handle any draw.
#[verifier::external_body]
fn draw_u64(rng: &mut rand::rngs::StdRng) -> u64 {
    rand::RngCore::next_u64(rng)
}

/// A 64-bit draw scaled into the unit interval: d / 2^64, the division
/// exact at this precision.
pub open spec fn spec_unit(d: u64) -> Scalar {
    spec_div(
        spec_from_u64(d),
        spec_mul(spec_from_u64(4294967296), spec_from_u64(4294967296)),
    )
}

/// A uniform draw in the unit interval [0, 1): 64 random bits scaled
/// down by 2^64.
pub fn random_unit(rng: &mut rand::rngs::StdRng) -> (r: Scalar)
    ensures
        exists|d: u64| r == spec_unit(d),
{
    let d = draw_u64(rng);
    let n = scalar_from_u64(d);
    let half_span = scalar_from_u64(4294967296);
    let r = scalar_div(n, scalar_mul(half_span, half_span));
    proof {
        assert(r == spec_unit(d));
    }
    r
}

/// `v` is a value the family can produce: its inverse-CDF model of
/// some 64-bit draw.
pub open spec fn sampled_from<D: Distribution>(dist: D, v: Scalar) -> bool {
    exists|d: u64| v == dist.sample_model(spec_unit(d))
}

/// A conductance distribution: a sampler pinned to its inverse-CDF
/// model over the unit draw, and its closed-form mean.
pub trait Distribution {
    /// The value the family's inverse CDF assigns to unit draw `u`.
    spec fn sample_model(&self, u: Scalar) -> Scalar;

    /// The family's closed-form expectation.
    spec fn mean_model(&self) -> Scalar;

    fn sample(&self, rng: &mut rand::rngs::StdRng) -> (r: Scalar)
        ensures
            exists|d: u64| r == self.sample_model(spec_unit(d)),
    ;

    fn mean(&self) -> (r: Scalar)
        ensures
            r == self.mean_model(),
    ;
}

/// Sample = exp(a*u): the reciprocal-conductance family.
pub struct InverseDist {
    pub param: Scalar,
}

impl InverseDist {
    pub fn new(param: Scalar) -> (d: InverseDist)
        ensures
            d.param == param,
    {
        InverseDist { param }
    }
}

impl Distribution for InverseDist {
    open spec fn sample_model(&self, u: Scalar) -> Scalar {
        spec_exp256(spec_mul(self.param, u))
    }

    /// Mean = (e^a - 1) / a.
    open spec fn mean_model(&self) -> Scalar {
        spec_div(spec_sub(spec_exp256(self.param), one_scalar()), self.param)
    }

    fn sample(&self, rng: &mut rand::rngs::StdRng) -> (r: Scalar)
        ensures
            exists|d: u64| r == self.sample_model(spec_unit(d)),
    {
        exp256(scalar_mul(self.param, random_unit(rng)))
    }

    fn mean(&self) -> (r: Scalar)
        ensures
            r == self.mean_model(),
    {
        scalar_div(scalar_sub(exp256(self.param), scalar_one()), self.param)
    }
}

/// Sample = (-ln(1 - u))^(1/k): the Weibull family with shape `k` and
/// unit scale.
pub struct WeibullDist {
    pub param: Scalar,
}

impl WeibullDist {
    pub fn new(param: Scalar) -> (d: WeibullDist)
        ensures
            d.param == param,
    {
        WeibullDist { param }
    }
}

impl Distribution for WeibullDist {
    open spec fn sample_model(&self, u: Scalar) -> Scalar {
        spec_powf256(
            spec_mul(neg_one_scalar(), spec_ln(spec_sub(one_scalar(), u))),
            spec_div(one_scalar(), self.param),
        )
    }

    /// Mean = gamma(1 + 1/k).
    open spec fn mean_model(&self) -> Scalar {
        spec_gamma(spec_add(one_scalar(), spec_div(one_scalar(), self.param)))
    }

    fn sample(&self, rng: &mut rand::rngs::StdRng) -> (r: Scalar)
        ensures
            exists|d: u64| r == self.sample_model(spec_unit(d)),
    {
        let u = random_unit(rng);
        powf256(
            scalar_mul(scalar_neg_one(), scalar_ln(scalar_sub(scalar_one(), u))),
            scalar_div(scalar_one(), self.param),
        )
    }

    fn mean(&self) -> (r: Scalar)
        ensures
            r == self.mean_model(),
    {
        gammaf256(scalar_add(scalar_one(), scalar_div(scalar_one(), self.param)))
    }
}

/// Sample = the log-normal density form
/// 1/(u*sqrt(2 pi s^2)) * exp(-ln(u)^2/(2 s^2)).
pub struct LogNormalDist {
    pub param: Scalar,
}

impl LogNormalDist {
    pub fn new(param: Scalar) -> (d: LogNormalDist)
        ensures
            d.param == param,
    {
        LogNormalDist { param }
    }
}

impl Distribution for LogNormalDist {
    open spec fn sample_model(&self, u: Scalar) -> Scalar {
        let s = self.param;
        let log = spec_ln(u);
        let front = spec_div(
            one_scalar(),
            spec_mul(
                u,
                spec_sqrt(spec_mul(spec_mul(spec_mul(two_scalar(), pi_scalar()), s), s)),
            ),
        );
        let arg = spec_div(
            spec_mul(spec_mul(neg_one_scalar(), log), log),
            spec_mul(spec_mul(two_scalar(), s), s),
        );
        spec_mul(front, spec_exp256(arg))
    }

    /// Mean = the closed form combining exp and erf this family is
    /// validated against.
    open spec fn mean_model(&self) -> Scalar {
        let s = self.param;
        let abs_s = spec_abs(s);
        let half_sq = spec_div(spec_mul(s, s), two_scalar());
        let t1 = spec_div(spec_exp256(spec_mul(s, half_sq)), abs_s);
        let t2 = spec_div(
            spec_mul(
                spec_mul(s, spec_exp256(half_sq)),
                spec_erf(spec_div(s, spec_sqrt(two_scalar()))),
            ),
            abs_s,
        );
        spec_sub(t1, t2)
    }

    fn sample(&self, rng: &mut rand::rngs::StdRng) -> (r: Scalar)
        ensures
            exists|d: u64| r == self.sample_model(spec_unit(d)),
    {
        let w = random_unit(rng);
        let log = scalar_ln(w);
        let s = self.param;
        let front = scalar_div(
            scalar_one(),
            scalar_mul(
                w,
                scalar_sqrt(
                    scalar_mul(scalar_mul(scalar_mul(scalar_two(), scalar_pi()), s), s),
                ),
            ),
        );
        let arg = scalar_div(
            scalar_mul(scalar_mul(scalar_neg_one(), log), log),
            scalar_mul(scalar_mul(scalar_two(), s), s),
        );
        scalar_mul(front, exp256(arg))
    }

    fn mean(&self) -> (r: Scalar)
        ensures
            r == self.mean_model(),
    {
        let s = self.param;
        let abs_s = scalar_abs(s);
        let half_sq = scalar_div(scalar_mul(s, s), scalar_two());
        let t1 = scalar_div(exp256(scalar_mul(s, half_sq)), abs_s);
        let t2 = scalar_div(
            scalar_mul(
                scalar_mul(s, exp256(half_sq)),
                erff256(scalar_div(s, scalar_sqrt(scalar_two()))),
            ),
            abs_s,
        );
        scalar_sub(t1, t2)
    }
}

/// The distribution families a run may select.
pub enum ValidDists {
    InverseDist(InverseDist),
    WeibullDist(WeibullDist),
    LogNormalDist(LogNormalDist),
}

impl Distribution for ValidDists {
    open spec fn sample_model(&self, u: Scalar) -> Scalar {
        match self {
            ValidDists::InverseDist(d) => d.sample_model(u),
            ValidDists::WeibullDist(d) => d.sample_model(u),
            ValidDists::LogNormalDist(d) => d.sample_model(u),
        }
    }

    open spec fn mean_model(&self) -> Scalar {
        match self {
            ValidDists::InverseDist(d) => d.mean_model(),
            ValidDists::WeibullDist(d) => d.mean_model(),
            ValidDists::LogNormalDist(d) => d.mean_model(),
        }
    }

    fn sample(&self, rng: &mut rand::rngs::StdRng) -> (r: Scalar)
        ensures
            exists|d: u64| r == self.sample_model(spec_unit(d)),
    {
        match self {
            ValidDists::InverseDist(d) => d.sample(rng),
            ValidDists::WeibullDist(d) => d.sample(rng),
            ValidDists::LogNormalDist(d) => d.sample(rng),
        }
    }

    fn mean(&self) -> (r: Scalar)
        ensures
            r == self.mean_model(),
    {
        match self {
            ValidDists::InverseDist(d) => d.mean(),
            ValidDists::WeibullDist(d) => d.mean(),
            ValidDists::LogNormalDist(d) => d.mean(),
        }
    }
}

} // verus!
