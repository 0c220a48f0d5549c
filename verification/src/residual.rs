//! Residual norms of a candidate solution: diagnostic only, read-only,
//! single-threaded.
//!
//! The residual of row i is the dot product of that row with the
//! solution minus the right-hand side cell; the reported norm is either
//! the Euclidean norm — the square root of the left-folded sum of
//! squares — or the maximum absolute entry under the primitive
//! comparison.  `compute_error` returns exactly the named composition.

use vstd::prelude::*;

verus! {

use crate::assembly::gview;
use crate::matrix::AugMatrix;
use crate::scalar::{
    scalar_abs, scalar_add, scalar_lt, scalar_mul, scalar_sqrt, scalar_sub, scalar_zero, spec_abs,
    spec_add, spec_lt, spec_mul, spec_sqrt, spec_sub, zero_scalar, Scalar,
};

/// Which norm of the residual vector is reported.
pub enum Norm {
    Two,
    Inf,
}

/// The dot product of the first `k` row cells with the solution,
/// folded left from zero.
pub open spec fn row_dot_spec(row: Seq<Scalar>, xs: Seq<Scalar>, k: int) -> Scalar
    decreases k,
{
    if k <= 0 {
        zero_scalar()
    } else {
        spec_add(row_dot_spec(row, xs, k - 1), spec_mul(row[k - 1], xs[k - 1]))
    }
}

/// The residual of row i: its dot product with the solution minus the
/// right-hand side cell.
pub open spec fn residual_spec(g: Seq<Seq<Scalar>>, xs: Seq<Scalar>, i: int) -> Scalar {
    spec_sub(row_dot_spec(g[i], xs, g.len() as int), g[i][g.len() as int])
}

/// The left-folded sum of squared residuals of the first `i` rows.
pub open spec fn sumsq_spec(g: Seq<Seq<Scalar>>, xs: Seq<Scalar>, i: int) -> Scalar
    decreases i,
{
    if i <= 0 {
        zero_scalar()
    } else {
        spec_add(
            sumsq_spec(g, xs, i - 1),
            spec_mul(residual_spec(g, xs, i - 1), residual_spec(g, xs, i - 1)),
        )
    }
}

/// The Euclidean residual norm: square root of the folded sum of
/// squares.
pub open spec fn norm2_spec(g: Seq<Seq<Scalar>>, xs: Seq<Scalar>) -> Scalar {
    spec_sqrt(sumsq_spec(g, xs, g.len() as int))
}

/// The running maximum of the absolute residuals of the first `i` rows:
/// the current best is replaced exactly when the primitive comparison
/// says it is smaller.
pub open spec fn maxabs_spec(g: Seq<Seq<Scalar>>, xs: Seq<Scalar>, i: int) -> Scalar
    decreases i,
{
    if i <= 1 {
        spec_abs(residual_spec(g, xs, 0))
    } else {
        let best = maxabs_spec(g, xs, i - 1);
        let a = spec_abs(residual_spec(g, xs, i - 1));
        if spec_lt(best, a) {
            a
        } else {
            best
        }
    }
}

/// The maximum-magnitude residual norm over all rows.
pub open spec fn norm_inf_spec(g: Seq<Seq<Scalar>>, xs: Seq<Scalar>) -> Scalar {
    maxabs_spec(g, xs, g.len() as int)
}

/// The residual vector A·x − b of the augmented system: entry i is
/// exactly `residual_spec`.
fn residual_vector(m: &AugMatrix, x: &Vec<Scalar>) -> (res: Vec<Scalar>)
    requires
        m.wf(),
        m.cols == m.spec_rows() + 1,
        x.len() == m.spec_rows(),
    ensures
        res.len() == m.spec_rows(),
        forall|i: int|
            0 <= i < res.len() ==> res@[i] == residual_spec(gview(*m), x@, i),
{
    let ghost g = gview(*m);
    let z = scalar_zero();
    let rows = m.rows();
    let mut res: Vec<Scalar> = Vec::new();
    let mut i: usize = 0;
    while i < rows
        invariant
            i <= rows,
            rows == m.spec_rows(),
            m.cols == rows + 1,
            m.wf(),
            g == gview(*m),
            z == zero_scalar(),
            x.len() == rows,
            res.len() == i,
            forall|r: int| 0 <= r < i ==> res@[r] == residual_spec(g, x@, r),
        decreases rows - i,
    {
        let mut ax_i = z;
        let mut j: usize = 0;
        while j < rows
            invariant
                j <= rows,
                i < rows,
                rows == m.spec_rows(),
                m.cols == rows + 1,
                m.wf(),
                g == gview(*m),
                x.len() == rows,
                ax_i == row_dot_spec(g[i as int], x@, j as int),
            decreases rows - j,
        {
            ax_i = scalar_add(ax_i, scalar_mul(m.get(i, j), x[j]));
            j = j + 1;
        }
        let b_i = m.get(i, rows);
        res.push(scalar_sub(ax_i, b_i));
        i = i + 1;
    }
    res
}

/// The chosen norm of A·x − b over the assembled system: exactly
/// `norm2_spec` for the Euclidean norm, `norm_inf_spec` for the maximum
/// magnitude.
pub fn compute_error(m: &AugMatrix, x: &Vec<Scalar>, norm: Norm) -> (r: Scalar)
    requires
        m.wf(),
        m.cols == m.spec_rows() + 1,
        m.spec_rows() >= 1,
        x.len() == m.spec_rows(),
    ensures
        r == match norm {
            Norm::Two => norm2_spec(gview(*m), x@),
            Norm::Inf => norm_inf_spec(gview(*m), x@),
        },
{
    let ghost g = gview(*m);
    let res = residual_vector(m, x);
    match norm {
        Norm::Two => {
            let mut sum = scalar_zero();
            let mut i: usize = 0;
            while i < res.len()
                invariant
                    i <= res.len(),
                    res.len() == g.len(),
                    forall|r: int| 0 <= r < res.len() ==> res@[r] == residual_spec(g, x@, r),
                    sum == sumsq_spec(g, x@, i as int),
                decreases res.len() - i,
            {
                sum = scalar_add(sum, scalar_mul(res[i], res[i]));
                i = i + 1;
            }
            scalar_sqrt(sum)
        },
        Norm::Inf => {
            let mut best = scalar_abs(res[0]);
            let mut i: usize = 1;
            while i < res.len()
                invariant
                    1 <= i <= res.len(),
                    res.len() == g.len(),
                    forall|r: int| 0 <= r < res.len() ==> res@[r] == residual_spec(g, x@, r),
                    best == maxabs_spec(g, x@, i as int),
                decreases res.len() - i,
            {
                let a = scalar_abs(res[i]);
                if scalar_lt(best, a) {
                    best = a;
                }
                i = i + 1;
            }
            best
        },
    }
}

} // verus!
