//! Assembly of the augmented linear system from lattice topology and
//! sampled conductances.
//!
//! Each resistor contributes a nodal-admittance stamp: a vertical or
//! internal-horizontal edge between nodes p and q subtracts its
//! conductance from both diagonal cells (p,p) and (q,q) and adds it to the
//! symmetric off-diagonal pair (p,q) and (q,p); a rail edge touches one
//! diagonal cell and that row's right-hand side.  The conductance vector
//! is consumed in the fixed enumeration order: vertical, then internal
//! horizontal, then high rail, then low rail.
//!
//! The contract of `build_system` pins the whole result: the final grid
//! equals `assembled`, the fold of every stamp in order over a zeroed
//! grid — so the assembled matrix is a function of the conductance
//! vector and the side length alone, and `lemma_assembled_symmetric`
//! proves its off-diagonal block symmetric.

use vstd::prelude::*;

verus! {

use crate::lattice::{fidx, spec_fidx, spec_n_res, spec_n_unk, MAX_SIDE};
use crate::matrix::AugMatrix;
use crate::scalar::{
    scalar_add, scalar_mul, scalar_neg, scalar_neg_one, scalar_one, neg_one_scalar, one_scalar,
    spec_add, spec_mul, spec_neg, zero_scalar, Scalar,
};

/// The grid a matrix holds, as a sequence of row sequences.
pub open spec fn gview(m: AugMatrix) -> Seq<Seq<Scalar>> {
    Seq::new(m.data.len() as nat, |i: int| m.data@[i]@)
}

/// One cell replaced in a grid.
pub open spec fn gupd(g: Seq<Seq<Scalar>>, i: int, j: int, v: Scalar) -> Seq<Seq<Scalar>> {
    g.update(i, g[i].update(j, v))
}

/// The four cell updates of one edge stamp between nodes p and q, in
/// execution order: subtract r from (p,p), add it to (p,q) and (q,p),
/// subtract it from (q,q).
pub open spec fn stamp_pair_spec(g: Seq<Seq<Scalar>>, p: int, q: int, r: Scalar) -> Seq<
    Seq<Scalar>,
> {
    let g1 = gupd(g, p, p, spec_add(g[p][p], spec_neg(r)));
    let g2 = gupd(g1, p, q, spec_add(g1[p][q], r));
    let g3 = gupd(g2, q, p, spec_add(g2[q][p], r));
    gupd(g3, q, q, spec_add(g3[q][q], spec_neg(r)))
}

/// The two cell updates of one rail stamp at node `idx` against rail
/// voltage `v`: subtract r from the diagonal, and v times r from the
/// right-hand side cell.
pub open spec fn rail_stamp_spec(
    g: Seq<Seq<Scalar>>,
    idx: int,
    rhs: int,
    v: Scalar,
    r: Scalar,
) -> Seq<Seq<Scalar>> {
    let g1 = gupd(g, idx, idx, spec_add(g[idx][idx], spec_neg(r)));
    gupd(g1, idx, rhs, spec_add(g1[idx][rhs], spec_neg(spec_mul(v, r))))
}

/// The stamp of resistor `k` in the fixed enumeration order: vertical
/// edges first, then internal horizontal, then the high rail at column
/// zero, then the low rail at the last interior column.
pub open spec fn assemble_step(g: Seq<Seq<Scalar>>, l: int, k: int, r: Scalar) -> Seq<
    Seq<Scalar>,
> {
    let nv = (l - 2) * (l - 1);
    let nh = (l - 3) * l;
    if k < nv {
        let j = k / (l - 1);
        let i = k % (l - 1);
        stamp_pair_spec(g, spec_fidx(i, j, l), spec_fidx(i + 1, j, l), r)
    } else if k < nv + nh {
        let t = k - nv;
        let j = t / l;
        let i = t % l;
        stamp_pair_spec(g, spec_fidx(i, j, l), spec_fidx(i, j + 1, l), r)
    } else if k < nv + nh + l {
        let i = k - nv - nh;
        rail_stamp_spec(g, spec_fidx(i, 0, l), spec_n_unk(l), one_scalar(), r)
    } else {
        let i = k - nv - nh - l;
        rail_stamp_spec(g, spec_fidx(i, l - 3, l), spec_n_unk(l), neg_one_scalar(), r)
    }
}

/// The all-zero starting grid of a side-`l` lattice.
pub open spec fn zero_grid(l: int) -> Seq<Seq<Scalar>> {
    Seq::new(
        spec_n_unk(l) as nat,
        |i: int| Seq::new((spec_n_unk(l) + 1) as nat, |j: int| zero_scalar()),
    )
}

/// The grid after the first `k` stamps.
pub open spec fn assemble_prefix(
    g0: Seq<Seq<Scalar>>,
    resist: Seq<Scalar>,
    l: int,
    k: int,
) -> Seq<Seq<Scalar>>
    decreases k,
{
    if k <= 0 {
        g0
    } else {
        assemble_step(assemble_prefix(g0, resist, l, k - 1), l, k - 1, resist[k - 1])
    }
}

/// The assembled augmented system: every stamp folded in order over the
/// zeroed grid — a function of the conductance vector and the side
/// length alone.
pub open spec fn assembled(resist: Seq<Scalar>, l: int) -> Seq<Seq<Scalar>> {
    assemble_prefix(zero_grid(l), resist, l, spec_n_res(l))
}

/// Writing one cell of a well-formed matrix is one `gupd` of its grid.
proof fn lemma_set_is_gupd(pre: AugMatrix, post: AugMatrix, i: int, j: int, v: Scalar)
    requires
        pre.wf(),
        post.wf(),
        post.same_shape(pre),
        0 <= i < pre.spec_rows(),
        0 <= j < pre.cols,
        post.entry(i, j) == v,
        forall|r: int, c: int|
            0 <= r < pre.spec_rows() && 0 <= c < pre.cols && !(r == i && c == j)
                ==> post.entry(r, c) == pre.entry(r, c),
    ensures
        gview(post) == gupd(gview(pre), i, j, v),
{
    let gp = gview(pre);
    let gq = gview(post);
    let target = gupd(gp, i, j, v);
    assert(gq.len() == target.len());
    assert forall|r: int| 0 <= r < gq.len() implies gq[r] =~= target[r] by {
        if r == i {
            assert forall|c: int| 0 <= c < pre.cols implies gq[r][c] == target[r][c] by {
                if c == j {
                    assert(post.entry(i, j) == v);
                } else {
                    assert(post.entry(r, c) == pre.entry(r, c));
                }
            }
        } else {
            assert forall|c: int| 0 <= c < pre.cols implies gq[r][c] == target[r][c] by {
                assert(post.entry(r, c) == pre.entry(r, c));
            }
        }
    }
    assert(gq =~~= target);
}

/// Add the cells of one edge stamp: conductance `r` is added to cells
/// (p, q) and (q, p), and subtracted from the diagonal cells (p, p) and
/// (q, q) — exactly the grid `stamp_pair_spec` names.
fn stamp_edge(m: &mut AugMatrix, p: usize, q: usize, r: Scalar)
    requires
        old(m).wf(),
        p < old(m).spec_rows(),
        q < old(m).spec_rows(),
        old(m).spec_rows() < old(m).cols,
    ensures
        final(m).wf(),
        final(m).same_shape(*old(m)),
        gview(*final(m)) == stamp_pair_spec(gview(*old(m)), p as int, q as int, r),
        forall|rr: int, cc: int|
            0 <= rr < old(m).spec_rows() && 0 <= cc < old(m).cols
                && !((rr == p || rr == q) && (cc == p || cc == q))
                ==> final(m).entry(rr, cc) == old(m).entry(rr, cc),
{
    let ghost g0 = gview(*m);
    let ghost m0 = *m;
    let neg_r = scalar_neg(r);
    let d_p = m.get(p, p);
    m.set(p, p, scalar_add(d_p, neg_r));
    let ghost g1 = gupd(g0, p as int, p as int, spec_add(g0[p as int][p as int], spec_neg(r)));
    let ghost m1 = *m;
    proof {
        lemma_set_is_gupd(m0, m1, p as int, p as int, spec_add(g0[p as int][p as int],
            spec_neg(r)));
        assert(gview(*m) == g1);
    }
    let o_pq = m.get(p, q);
    m.set(p, q, scalar_add(o_pq, r));
    let ghost g2 = gupd(g1, p as int, q as int, spec_add(g1[p as int][q as int], r));
    let ghost m2 = *m;
    proof {
        lemma_set_is_gupd(m1, m2, p as int, q as int, spec_add(g1[p as int][q as int], r));
        assert(gview(*m) == g2);
    }
    let o_qp = m.get(q, p);
    m.set(q, p, scalar_add(o_qp, r));
    let ghost g3 = gupd(g2, q as int, p as int, spec_add(g2[q as int][p as int], r));
    let ghost m3 = *m;
    proof {
        lemma_set_is_gupd(m2, m3, q as int, p as int, spec_add(g2[q as int][p as int], r));
        assert(gview(*m) == g3);
    }
    let d_q = m.get(q, q);
    m.set(q, q, scalar_add(d_q, scalar_neg(r)));
    let ghost m4 = *m;
    proof {
        lemma_set_is_gupd(m3, m4, q as int, q as int, spec_add(g3[q as int][q as int],
            spec_neg(r)));
        assert(gview(*m) == gupd(g3, q as int, q as int, spec_add(g3[q as int][q as int],
            spec_neg(r))));
    }
}

/// Add the cells of one rail stamp at node `idx` against rail voltage
/// `v` — exactly the grid `rail_stamp_spec` names.
fn stamp_rail(m: &mut AugMatrix, idx: usize, rhs_col: usize, v: Scalar, r: Scalar)
    requires
        old(m).wf(),
        idx < old(m).spec_rows(),
        old(m).spec_rows() < old(m).cols,
        rhs_col < old(m).cols,
    ensures
        final(m).wf(),
        final(m).same_shape(*old(m)),
        gview(*final(m)) == rail_stamp_spec(gview(*old(m)), idx as int, rhs_col as int, v, r),
{
    let ghost g0 = gview(*m);
    let ghost m0 = *m;
    let d = m.get(idx, idx);
    m.set(idx, idx, scalar_add(d, scalar_neg(r)));
    let ghost g1 = gupd(g0, idx as int, idx as int, spec_add(g0[idx as int][idx as int],
        spec_neg(r)));
    let ghost m1 = *m;
    proof {
        lemma_set_is_gupd(m0, m1, idx as int, idx as int, spec_add(g0[idx as int][idx as int],
            spec_neg(r)));
        assert(gview(*m) == g1);
    }
    let b = m.get(idx, rhs_col);
    m.set(idx, rhs_col, scalar_add(b, scalar_neg(scalar_mul(v, r))));
    let ghost m2 = *m;
    proof {
        lemma_set_is_gupd(m1, m2, idx as int, rhs_col as int, spec_add(
            g1[idx as int][rhs_col as int], spec_neg(spec_mul(v, r))));
        assert(gview(*m) == gupd(g1, idx as int, rhs_col as int, spec_add(
            g1[idx as int][rhs_col as int], spec_neg(spec_mul(v, r)))));
    }
}

/// Assemble the augmented system for the side-`l` lattice from the
/// conductance vector: the result is exactly `assembled(resist, l)`,
/// the fold of every stamp over a zeroed grid.
pub fn build_system(m: &mut AugMatrix, resist: &Vec<Scalar>, l: usize)
    requires
        3 <= l <= MAX_SIDE,
        old(m).wf(),
        old(m).spec_rows() == spec_n_unk(l as int),
        old(m).cols == spec_n_unk(l as int) + 1,
        resist@.len() == spec_n_res(l as int),
    ensures
        final(m).wf(),
        final(m).same_shape(*old(m)),
        gview(*final(m)) == assembled(resist@, l as int),
{
    m.zero_fill();
    let ghost li = l as int;
    let rows = m.rows();
    let rhs_col = rows;
    let total = resist.len();
    proof {
        assert((l - 2) * (l - 1) + (l - 3) * l + 2 * l == spec_n_res(li)
            && (l - 2) * (l - 1) >= 0 && (l - 3) * l >= 0) by (nonlinear_arith)
            requires 3 <= l <= MAX_SIDE && li == l as int;
        assert forall|r: int| 0 <= r < gview(*m).len() implies gview(*m)[r] =~= zero_grid(
            li,
        )[r] by {
            assert forall|c: int| 0 <= c < m.cols implies gview(*m)[r][c] == zero_grid(li)[r][c] by {
                assert(m.entry(r, c) == crate::scalar::zero_scalar());
            }
        }
        assert(gview(*m) =~~= zero_grid(li));
    }

    let mut k: usize = 0;

    // Vertical edges: between (i, j) and (i + 1, j).
    let mut j: usize = 0;
    while j < l - 2
        invariant
            3 <= l <= MAX_SIDE,
            li == l as int,
            j <= l - 2,
            k == j * (l - 1),
            k <= (l - 2) * (l - 1),
            total == spec_n_res(li),
            resist@.len() == total,
            spec_n_res(li) == (l - 2) * (l - 1) + (l - 3) * l + 2 * l,
            (l - 2) * (l - 1) >= 0,
            (l - 3) * l >= 0,
            rows == spec_n_unk(li),
            rhs_col == rows,
            m.wf(),
            m.same_shape(*old(m)),
            m.spec_rows() == rows,
            m.cols == rows + 1,
            gview(*m) == assemble_prefix(zero_grid(li), resist@, li, k as int),
        decreases l - 2 - j,
    {
        let mut i: usize = 0;
        while i < l - 1
            invariant
                3 <= l <= MAX_SIDE,
                li == l as int,
                j < l - 2,
                i <= l - 1,
                k == j * (l - 1) + i,
                total == spec_n_res(li),
                resist@.len() == total,
                spec_n_res(li) == (l - 2) * (l - 1) + (l - 3) * l + 2 * l,
                (l - 2) * (l - 1) >= 0,
                (l - 3) * l >= 0,
                rows == spec_n_unk(li),
                rhs_col == rows,
                m.wf(),
                m.same_shape(*old(m)),
                m.spec_rows() == rows,
                m.cols == rows + 1,
                gview(*m) == assemble_prefix(zero_grid(li), resist@, li, k as int),
            decreases l - 1 - i,
        {
            proof {
                assert(j * (l - 1) + i < (l - 2) * (l - 1)
                    && ((j * (l - 1) + i) as int) / ((l - 1) as int) == j as int
                    && ((j * (l - 1) + i) as int) % ((l - 1) as int) == i as int)
                    by (nonlinear_arith)
                    requires 3 <= l && j < l - 2 && i < l - 1;
            }
            let r = resist[k];
            let hgh = fidx(i, j, l);
            let low = fidx(i + 1, j, l);
            stamp_edge(m, hgh, low, r);
            k = k + 1;
            proof {
                assert(gview(*m) == assemble_prefix(zero_grid(li), resist@, li, k as int));
            }
            i = i + 1;
        }
        j = j + 1;
        proof {
            assert((j - 1) * (l - 1) + (l - 1) == j * (l - 1)
                && j * (l - 1) <= (l - 2) * (l - 1)) by (nonlinear_arith)
                requires 1 <= j <= l - 2 && 3 <= l;
        }
    }

    // Internal horizontal edges: between (i, j) and (i, j + 1).
    let vert_total = k;
    let mut j: usize = 0;
    while j < l - 3
        invariant
            3 <= l <= MAX_SIDE,
            li == l as int,
            j <= l - 3,
            vert_total == (l - 2) * (l - 1),
            k == vert_total + j * l,
            k <= vert_total + (l - 3) * l,
            total == spec_n_res(li),
            resist@.len() == total,
            spec_n_res(li) == (l - 2) * (l - 1) + (l - 3) * l + 2 * l,
            (l - 3) * l >= 0,
            rows == spec_n_unk(li),
            rhs_col == rows,
            m.wf(),
            m.same_shape(*old(m)),
            m.spec_rows() == rows,
            m.cols == rows + 1,
            gview(*m) == assemble_prefix(zero_grid(li), resist@, li, k as int),
        decreases l - 3 - j,
    {
        let mut i: usize = 0;
        while i < l
            invariant
                3 <= l <= MAX_SIDE,
                li == l as int,
                j < l - 3,
                i <= l,
                vert_total == (l - 2) * (l - 1),
                k == vert_total + j * l + i,
                total == spec_n_res(li),
                resist@.len() == total,
                spec_n_res(li) == (l - 2) * (l - 1) + (l - 3) * l + 2 * l,
                (l - 3) * l >= 0,
                rows == spec_n_unk(li),
                rhs_col == rows,
                m.wf(),
                m.same_shape(*old(m)),
                m.spec_rows() == rows,
                m.cols == rows + 1,
                gview(*m) == assemble_prefix(zero_grid(li), resist@, li, k as int),
            decreases l - i,
        {
            proof {
                assert(j * l + i < (l - 3) * l
                    && ((j * l + i) as int) / (l as int) == j as int
                    && ((j * l + i) as int) % (l as int) == i as int)
                    by (nonlinear_arith)
                    requires 3 <= l && j < l - 3 && i < l;
            }
            let r = resist[k];
            let hgh = fidx(i, j, l);
            let low = fidx(i, j + 1, l);
            stamp_edge(m, hgh, low, r);
            k = k + 1;
            proof {
                assert((k - 1) - vert_total == j * l + i);
                assert(gview(*m) == assemble_prefix(zero_grid(li), resist@, li, k as int));
            }
            i = i + 1;
        }
        j = j + 1;
        proof {
            assert((j - 1) * l + l == j * l && j * l <= (l - 3) * l) by (nonlinear_arith)
                requires 1 <= j <= l - 3 && 3 <= l;
        }
    }

    // High-rail edges: one per row at column 0, against voltage +1.
    let hor_total = k;
    let v_hgh = scalar_one();
    let mut i: usize = 0;
    while i < l
        invariant
            3 <= l <= MAX_SIDE,
            li == l as int,
            i <= l,
            hor_total == (l - 2) * (l - 1) + (l - 3) * l,
            k == hor_total + i,
            total == spec_n_res(li),
            resist@.len() == total,
            spec_n_res(li) == (l - 2) * (l - 1) + (l - 3) * l + 2 * l,
            rows == spec_n_unk(li),
            rhs_col == rows,
            v_hgh == one_scalar(),
            m.wf(),
            m.same_shape(*old(m)),
            m.spec_rows() == rows,
            m.cols == rows + 1,
            gview(*m) == assemble_prefix(zero_grid(li), resist@, li, k as int),
        decreases l - i,
    {
        let r = resist[k];
        let idx = fidx(i, 0, l);
        stamp_rail(m, idx, rhs_col, v_hgh, r);
        k = k + 1;
        proof {
            assert(gview(*m) == assemble_prefix(zero_grid(li), resist@, li, k as int));
        }
        i = i + 1;
    }

    // Low-rail edges: one per row at the last interior column, against
    // voltage -1.
    let v_low = scalar_neg_one();
    let mut i: usize = 0;
    while i < l
        invariant
            3 <= l <= MAX_SIDE,
            li == l as int,
            i <= l,
            hor_total == (l - 2) * (l - 1) + (l - 3) * l,
            k == hor_total + l + i,
            total == spec_n_res(li),
            resist@.len() == total,
            spec_n_res(li) == (l - 2) * (l - 1) + (l - 3) * l + 2 * l,
            rows == spec_n_unk(li),
            rhs_col == rows,
            v_low == neg_one_scalar(),
            m.wf(),
            m.same_shape(*old(m)),
            m.spec_rows() == rows,
            m.cols == rows + 1,
            gview(*m) == assemble_prefix(zero_grid(li), resist@, li, k as int),
        decreases l - i,
    {
        let r = resist[k];
        let idx = fidx(i, l - 3, l);
        stamp_rail(m, idx, rhs_col, v_low, r);
        k = k + 1;
        proof {
            assert(gview(*m) == assemble_prefix(zero_grid(li), resist@, li, k as int));
        }
        i = i + 1;
    }
}

/// The off-diagonal block of the grid is symmetric over the first `n`
/// rows and columns.
pub open spec fn sym_offdiag(g: Seq<Seq<Scalar>>, n: int) -> bool {
    forall|p: int, q: int| 0 <= p < n && 0 <= q < n ==> #[trigger] g[p][q] == g[q][p]
}

/// The grid has `n` rows of `n + 1` cells each.
pub open spec fn grid_wf(g: Seq<Seq<Scalar>>, n: int) -> bool {
    g.len() == n && forall|i: int| 0 <= i < n ==> (#[trigger] g[i]).len() == n + 1
}

proof fn lemma_stamp_pair_sym(g: Seq<Seq<Scalar>>, n: int, p: int, q: int, r: Scalar)
    requires
        sym_offdiag(g, n),
        grid_wf(g, n),
        0 <= p < n,
        0 <= q < n,
    ensures
        sym_offdiag(stamp_pair_spec(g, p, q, r), n),
        grid_wf(stamp_pair_spec(g, p, q, r), n),
{
    let g4 = stamp_pair_spec(g, p, q, r);
    assert forall|a: int, b: int| 0 <= a < n && 0 <= b < n implies #[trigger] g4[a][b]
        == g4[b][a] by {
        assert(g[a][b] == g[b][a]);
        assert(g[p][q] == g[q][p]);
    }
}

proof fn lemma_rail_stamp_sym(g: Seq<Seq<Scalar>>, n: int, idx: int, rhs: int, v: Scalar, r: Scalar)
    requires
        sym_offdiag(g, n),
        grid_wf(g, n),
        0 <= idx < n,
        n <= rhs <= n,
    ensures
        sym_offdiag(rail_stamp_spec(g, idx, rhs, v, r), n),
        grid_wf(rail_stamp_spec(g, idx, rhs, v, r), n),
{
    let g2 = rail_stamp_spec(g, idx, rhs, v, r);
    assert forall|a: int, b: int| 0 <= a < n && 0 <= b < n implies #[trigger] g2[a][b]
        == g2[b][a] by {
        assert(g[a][b] == g[b][a]);
    }
}

/// Every edge stamp writes the same conductance to (p, q) and (q, p),
/// and rails touch only a diagonal cell and the right-hand side, so the
/// assembled matrix's off-diagonal block is symmetric.
pub proof fn lemma_assembled_symmetric(resist: Seq<Scalar>, l: int, k: int)
    requires
        3 <= l,
        0 <= k <= spec_n_res(l),
        resist.len() == spec_n_res(l),
    ensures
        grid_wf(assemble_prefix(zero_grid(l), resist, l, k), spec_n_unk(l)),
        sym_offdiag(assemble_prefix(zero_grid(l), resist, l, k), spec_n_unk(l)),
    decreases k,
{
    let n = spec_n_unk(l);
    assert(spec_n_unk(l) >= 3 && spec_n_res(l) == (l - 2) * (l - 1) + (l - 3) * l + 2 * l
        && (l - 2) * (l - 1) >= 0 && (l - 3) * l >= 0) by (nonlinear_arith)
        requires 3 <= l;
    if k <= 0 {
        assert(sym_offdiag(zero_grid(l), n)) by {
            assert forall|p: int, q: int| 0 <= p < n && 0 <= q < n implies
                #[trigger] zero_grid(l)[p][q] == zero_grid(l)[q][p] by {}
        }
    } else {
        lemma_assembled_symmetric(resist, l, k - 1);
        let g = assemble_prefix(zero_grid(l), resist, l, k - 1);
        let r = resist[k - 1];
        let kk = k - 1;
        let nv = (l - 2) * (l - 1);
        let nh = (l - 3) * l;
        if kk < nv {
            let j = kk / (l - 1);
            let i = kk % (l - 1);
            assert(0 <= i < l - 1 && 0 <= j < l - 2) by (nonlinear_arith)
                requires 3 <= l && 0 <= kk < (l - 2) * (l - 1) && j == kk / (l - 1)
                    && i == kk % (l - 1);
            assert(0 <= spec_fidx(i, j, l) < n && 0 <= spec_fidx(i + 1, j, l) < n)
                by (nonlinear_arith)
                requires 3 <= l && 0 <= i < l - 1 && 0 <= j < l - 2 && n == l * (l - 2);
            lemma_stamp_pair_sym(g, n, spec_fidx(i, j, l), spec_fidx(i + 1, j, l), r);
        } else if kk < nv + nh {
            let t = kk - nv;
            let j = t / l;
            let i = t % l;
            assert(0 <= i < l && 0 <= j < l - 3) by (nonlinear_arith)
                requires 3 <= l && 0 <= t < (l - 3) * l && j == t / l && i == t % l;
            assert(0 <= spec_fidx(i, j, l) < n && 0 <= spec_fidx(i, j + 1, l) < n)
                by (nonlinear_arith)
                requires 3 <= l && 0 <= i < l && 0 <= j < l - 3 && n == l * (l - 2);
            lemma_stamp_pair_sym(g, n, spec_fidx(i, j, l), spec_fidx(i, j + 1, l), r);
        } else if kk < nv + nh + l {
            let i = kk - nv - nh;
            assert(0 <= spec_fidx(i, 0, l) < n) by (nonlinear_arith)
                requires 3 <= l && 0 <= i < l && n == l * (l - 2);
            lemma_rail_stamp_sym(g, n, spec_fidx(i, 0, l), n, one_scalar(), r);
        } else {
            let i = kk - nv - nh - l;
            assert(0 <= i < l);
            assert(0 <= spec_fidx(i, l - 3, l) < n) by (nonlinear_arith)
                requires 3 <= l && 0 <= i < l && n == l * (l - 2);
            lemma_rail_stamp_sym(g, n, spec_fidx(i, l - 3, l), n, neg_one_scalar(), r);
        }
    }
}

} // verus!
