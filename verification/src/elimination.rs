//! In-place Gaussian elimination with partial pivoting, and sequential
//! back-substitution.
//!
//! The whole pass is specified as a recurrence over the named scalar
//! primitives: `forward_spec` walks the columns, fixing each pivot — a
//! swap with the first lower row whose cell tests nonzero, or the
//! `SingularMatrixError` naming the column when none does — and then
//! rewriting every lower row by `row_update_spec`; `back_sub_state` is
//! the bottom-up substitution.  `gauss_elimination` returns `Ok` exactly
//! when the recurrence does, leaves the matrix in the recurrence's final
//! state, and fills the solution vector with the substituted values; on
//! failure the solution vector is exactly what it was.
//!
//! Below the pivot the rows are walked in consecutive chunks bounded by
//! the worker count, the partition an explicit function whose contract
//! makes the per-worker write ranges disjoint by construction; each row
//! update touches only its own row, and never a row at or above the
//! diagonal, so the pivot row stays fixed for the whole pass.

use vstd::prelude::*;

verus! {

use crate::assembly::gview;
use crate::matrix::AugMatrix;
use crate::scalar::{
    scalar_add, scalar_div, scalar_eq, scalar_mul, scalar_sub, scalar_zero, spec_add, spec_div,
    spec_eq, spec_mul, spec_sub, zero_scalar, Scalar,
};

/// No nonzero pivot was found in `column`, on or below the diagonal.
#[derive(Clone, Copy, Debug, PartialEq, Eq, Structural)]
pub struct SingularMatrixError {
    pub column: usize,
}

/// One worker's update of row `row` against pivot row `pivot` in column
/// `j`: unchanged when the row's cell in the pivot column tests zero,
/// else the columns from `j` on are rewritten by
/// cell - factor * pivot cell, with factor = row[j] / pivot[j].
pub open spec fn row_update_spec(pivot: Seq<Scalar>, row: Seq<Scalar>, j: int) -> Seq<Scalar> {
    if spec_eq(row[j], zero_scalar()) {
        row
    } else {
        let factor = spec_div(row[j], pivot[j]);
        Seq::new(
            row.len(),
            |k: int|
                if k < j {
                    row[k]
                } else {
                    spec_sub(row[k], spec_mul(factor, pivot[k]))
                },
        )
    }
}

/// One column's sub-diagonal pass: every row below `j` updated against
/// pivot row `j`, every row at or above it untouched.
pub open spec fn elim_col_spec(g: Seq<Seq<Scalar>>, j: int) -> Seq<Seq<Scalar>> {
    Seq::new(
        g.len(),
        |r: int|
            if r <= j {
                g[r]
            } else {
                row_update_spec(g[j], g[r], j)
            },
    )
}

/// The first row at or after `i` whose cell in column `j` tests
/// nonzero, if any.
pub open spec fn first_nonzero_from_spec(g: Seq<Seq<Scalar>>, j: int, i: int) -> Option<int>
    decreases g.len() - i,
{
    if i >= g.len() {
        None
    } else if !spec_eq(g[i][j], zero_scalar()) {
        Some(i)
    } else {
        first_nonzero_from_spec(g, j, i + 1)
    }
}

/// Two rows exchanged.
pub open spec fn swap_spec(g: Seq<Seq<Scalar>>, a: int, b: int) -> Seq<Seq<Scalar>> {
    g.update(a, g[b]).update(b, g[a])
}

/// The pivot fix for column `j`: the grid unchanged when the diagonal
/// cell tests nonzero; else the first lower row testing nonzero swapped
/// up, and no grid at all when every lower cell tests zero.
pub open spec fn pivot_fix_spec(g: Seq<Seq<Scalar>>, j: int) -> Option<Seq<Seq<Scalar>>> {
    if !spec_eq(g[j][j], zero_scalar()) {
        Some(g)
    } else {
        match first_nonzero_from_spec(g, j, j + 1) {
            Option::None => None,
            Option::Some(i) => Some(swap_spec(g, j, i)),
        }
    }
}

/// The forward elimination over `rows` columns from column `j` on:
/// `Err` names the first column with no usable pivot, `Ok` carries the
/// fully eliminated grid.
pub open spec fn forward_spec(g: Seq<Seq<Scalar>>, j: int, rows: int) -> Result<
    Seq<Seq<Scalar>>,
    int,
>
    decreases rows - j,
{
    if j >= rows {
        Ok(g)
    } else {
        match pivot_fix_spec(g, j) {
            Option::None => Err(j),
            Option::Some(g1) => forward_spec(elim_col_spec(g1, j), j + 1, rows),
        }
    }
}

/// The dot product of row cells (i, i+1..k) with the solution entries,
/// folded left from zero.
pub open spec fn dot_prefix_spec(row: Seq<Scalar>, xs: Seq<Scalar>, i: int, k: int) -> Scalar
    decreases k - i,
{
    if k <= i + 1 {
        zero_scalar()
    } else {
        spec_add(dot_prefix_spec(row, xs, i, k - 1), spec_mul(row[k - 1], xs[k - 1]))
    }
}

/// The solution vector after back-substituting rows `i` and below the
/// bottom: x[i] = (rhs[i] - dot) / g[i][i], bottom row first.
pub open spec fn back_sub_state(g: Seq<Seq<Scalar>>, x0: Seq<Scalar>, i: int) -> Seq<Scalar>
    decreases g.len() - i,
{
    let rows = g.len() as int;
    if i >= rows {
        x0
    } else {
        let xs = back_sub_state(g, x0, i + 1);
        xs.update(
            i,
            spec_div(spec_sub(g[i][rows], dot_prefix_spec(g[i], xs, i, rows)), g[i][i]),
        )
    }
}

/// The index of the first set flag, if any: the exact decision rule the
/// pivot search applies to the outcomes of its zero tests.
pub fn first_true(flags: &Vec<bool>) -> (r: Option<usize>)
    ensures
        match r {
            Some(i) => i < flags.len() && flags@[i as int]
                && forall|k: int| 0 <= k < i ==> !flags@[k],
            None => forall|k: int| 0 <= k < flags.len() ==> !flags@[k],
        },
{
    let mut i: usize = 0;
    while i < flags.len()
        invariant
            i <= flags.len(),
            forall|k: int| 0 <= k < i ==> !flags@[k],
        decreases flags.len() - i,
    {
        if flags[i] {
            return Some(i);
        }
        i = i + 1;
    }
    None
}

/// Nonzero tests for column `j`, over the rows strictly below the
/// diagonal: entry `k` is the outcome for row `j + 1 + k`.
fn subdiagonal_nonzero_flags(m: &AugMatrix, j: usize) -> (flags: Vec<bool>)
    requires
        m.wf(),
        j < m.spec_rows(),
        j < m.cols,
    ensures
        flags.len() == m.spec_rows() - j - 1,
        forall|k: int|
            0 <= k < flags.len()
                ==> flags@[k] == !spec_eq(m.entry(j + 1 + k, j as int), zero_scalar()),
{
    let z = scalar_zero();
    let rows = m.rows();
    let mut flags: Vec<bool> = Vec::new();
    let mut i: usize = j + 1;
    while i < rows
        invariant
            j + 1 <= i <= rows,
            rows == m.spec_rows(),
            j < m.cols,
            m.wf(),
            z == zero_scalar(),
            flags.len() == i - j - 1,
            forall|k: int|
                0 <= k < flags.len()
                    ==> flags@[k] == !spec_eq(m.entry(j + 1 + k, j as int), zero_scalar()),
        decreases rows - i,
    {
        flags.push(!scalar_eq(m.get(i, j), z));
        proof {
            assert(flags@[flags.len() - 1] == !spec_eq(
                m.entry(j as int + 1 + (flags.len() - 1), j as int),
                zero_scalar(),
            ));
        }
        i = i + 1;
    }
    flags
}

proof fn lemma_no_nonzero(g: Seq<Seq<Scalar>>, j: int, i: int)
    requires
        forall|r: int| i <= r < g.len() ==> spec_eq(#[trigger] g[r][j], zero_scalar()),
    ensures
        first_nonzero_from_spec(g, j, i) is None,
    decreases g.len() - i,
{
    if i < g.len() {
        lemma_no_nonzero(g, j, i + 1);
    }
}

proof fn lemma_first_at(g: Seq<Seq<Scalar>>, j: int, i: int, target: int)
    requires
        i <= target < g.len(),
        !spec_eq(g[target][j], zero_scalar()),
        forall|r: int| i <= r < target ==> spec_eq(#[trigger] g[r][j], zero_scalar()),
    ensures
        first_nonzero_from_spec(g, j, i) == Some(target),
    decreases target - i,
{
    if i < target {
        lemma_first_at(g, j, i + 1, target);
    }
}

/// Partition `[start, end)` into consecutive chunks of at most `width`
/// rows: the explicit schedule of the per-worker write ranges of one
/// elimination pass.  Consecutive chunks meet exactly, so together they
/// cover the interval once and never overlap; every chunk but the last
/// is full.
pub fn chunk_ranges(start: usize, end: usize, width: usize) -> (r: Vec<(usize, usize)>)
    requires
        start <= end,
        width >= 1,
    ensures
        r.len() == 0 <==> start == end,
        r.len() > 0 ==> r@[0].0 == start && r@[r.len() - 1].1 == end,
        forall|t: int|
            0 <= t < r.len() ==> start <= (#[trigger] r@[t]).0 < r@[t].1 <= end
                && r@[t].1 - r@[t].0 <= width,
        forall|t: int| 0 <= t < r.len() - 1 ==> (#[trigger] r@[t]).1 == r@[t + 1].0
            && r@[t].1 - r@[t].0 == width,
{
    let mut r: Vec<(usize, usize)> = Vec::new();
    let mut lo: usize = start;
    while lo < end
        invariant
            start <= lo <= end,
            width >= 1,
            r.len() == 0 <==> lo == start,
            r.len() > 0 ==> r@[0].0 == start && r@[r.len() - 1].1 == lo,
            forall|t: int|
                0 <= t < r.len() ==> start <= (#[trigger] r@[t]).0 < r@[t].1 <= end
                    && r@[t].1 - r@[t].0 <= width,
            forall|t: int| 0 <= t < r.len() - 1 ==> (#[trigger] r@[t]).1 == r@[t + 1].0,
            forall|t: int|
                0 <= t < r.len() && (#[trigger] r@[t]).1 < end ==> r@[t].1 - r@[t].0 == width,
        decreases end - lo,
    {
        let hi = if end - lo < width {
            end
        } else {
            lo + width
        };
        r.push((lo, hi));
        lo = hi;
    }
    proof {
        assert forall|t: int| 0 <= t < r.len() - 1 implies (#[trigger] r@[t]).1 == r@[t + 1].0
            && r@[t].1 - r@[t].0 == width by {
            assert(r@[t].1 == r@[t + 1].0);
            assert(r@[t + 1].0 < r@[t + 1].1 <= end);
        }
    }
    r
}

/// Chunks of the partition are pairwise disjoint: an earlier chunk ends
/// no later than a later chunk begins.
pub proof fn lemma_chunks_disjoint(r: Seq<(usize, usize)>, t1: int, t2: int)
    requires
        forall|t: int| 0 <= t < r.len() ==> (#[trigger] r[t]).0 < r[t].1,
        forall|t: int| 0 <= t < r.len() - 1 ==> (#[trigger] r[t]).1 == r[t + 1].0,
        0 <= t1 < t2 < r.len(),
    ensures
        r[t1].1 <= r[t2].0,
    decreases t2 - t1,
{
    if t1 + 1 == t2 {
        assert(r[t1].1 == r[t2].0);
    } else {
        lemma_chunks_disjoint(r, t1, t2 - 1);
        assert(r[t2 - 1].1 == r[t2].0);
    }
}

/// One worker's update: row `i` becomes exactly
/// `row_update_spec(pivot row j, row i, j)`; no other row changes.
fn eliminate_row(m: &mut AugMatrix, i: usize, j: usize)
    requires
        old(m).wf(),
        j < i < old(m).spec_rows(),
        j < old(m).cols,
    ensures
        final(m).wf(),
        final(m).same_shape(*old(m)),
        final(m).data@[i as int]@ == row_update_spec(
            old(m).data@[j as int]@,
            old(m).data@[i as int]@,
            j as int,
        ),
        forall|r: int, c: int|
            0 <= r < old(m).spec_rows() && 0 <= c < old(m).cols && r != i
                ==> final(m).entry(r, c) == old(m).entry(r, c),
{
    let ghost pivot0 = m.data@[j as int]@;
    let ghost row0 = m.data@[i as int]@;
    let z = scalar_zero();
    let lead = m.get(i, j);
    if scalar_eq(lead, z) {
        proof {
            assert(row_update_spec(pivot0, row0, j as int) == row0);
        }
        return;
    }
    let factor = scalar_div(lead, m.get(j, j));
    let ghost target = row_update_spec(pivot0, row0, j as int);
    let cols = m.cols;
    let mut k: usize = j;
    while k < cols
        invariant
            j <= k <= cols,
            j < i < m.spec_rows(),
            cols == m.cols,
            m.wf(),
            m.same_shape(*old(m)),
            pivot0 == old(m).data@[j as int]@,
            row0 == old(m).data@[i as int]@,
            row0.len() == cols,
            target == row_update_spec(pivot0, row0, j as int),
            target.len() == cols,
            factor == spec_div(row0[j as int], pivot0[j as int]),
            !spec_eq(row0[j as int], zero_scalar()),
            forall|r: int, c: int|
                0 <= r < m.spec_rows() && 0 <= c < cols && r != i
                    ==> m.entry(r, c) == old(m).entry(r, c),
            forall|c: int| 0 <= c < j ==> m.entry(i as int, c) == row0[c],
            forall|c: int| j <= c < k ==> m.entry(i as int, c) == target[c],
            forall|c: int| k <= c < cols ==> m.entry(i as int, c) == row0[c],
        decreases cols - k,
    {
        let updated = scalar_sub(m.get(i, k), scalar_mul(factor, m.get(j, k)));
        m.set(i, k, updated);
        k = k + 1;
    }
    proof {
        assert(m.data@[i as int]@ =~= target);
    }
}

/// One column's full sub-diagonal pass, chunk by chunk over the worker
/// partition: the grid becomes exactly `elim_col_spec` of what it was —
/// in particular the pivot row and everything above it is untouched.
fn eliminate_below(m: &mut AugMatrix, j: usize, workers: usize)
    requires
        old(m).wf(),
        j < old(m).spec_rows(),
        j < old(m).cols,
        workers >= 1,
    ensures
        final(m).wf(),
        final(m).same_shape(*old(m)),
        gview(*final(m)) == elim_col_spec(gview(*old(m)), j as int),
{
    let ghost g0 = gview(*m);
    let rows = m.rows();
    let chunks = chunk_ranges(j + 1, rows, workers);
    let mut t: usize = 0;
    while t < chunks.len()
        invariant
            t <= chunks.len(),
            j < rows,
            rows == m.spec_rows(),
            j < m.cols,
            m.wf(),
            m.same_shape(*old(m)),
            g0 == gview(*old(m)),
            chunks.len() == 0 <==> j + 1 == rows,
            chunks.len() > 0 ==> chunks@[0].0 == j + 1
                && chunks@[chunks.len() - 1].1 == rows,
            forall|u: int|
                0 <= u < chunks.len() ==> j < (#[trigger] chunks@[u]).0 < chunks@[u].1 <= rows,
            forall|u: int|
                0 <= u < chunks.len() - 1 ==> (#[trigger] chunks@[u]).1 == chunks@[u + 1].0,
            forall|r: int, c: int|
                0 <= r <= j && 0 <= c < m.cols ==> m.entry(r, c) == old(m).entry(r, c),
            forall|r: int|
                0 <= r < rows && (r <= j || (t < chunks.len() && chunks@[t as int].0 <= r))
                    ==> #[trigger] m.data@[r]@ == g0[r],
            forall|r: int|
                j < r < rows && (t < chunks.len() ==> r < chunks@[t as int].0)
                    ==> #[trigger] m.data@[r]@ == row_update_spec(g0[j as int], g0[r], j as int),
        decreases chunks.len() - t,
    {
        let (lo, hi) = chunks[t];
        let mut i: usize = lo;
        while i < hi
            invariant
                j < lo <= i <= hi <= rows,
                rows == m.spec_rows(),
                j < m.cols,
                m.wf(),
                m.same_shape(*old(m)),
                g0 == gview(*old(m)),
                forall|r: int, c: int|
                    0 <= r <= j && 0 <= c < m.cols ==> m.entry(r, c) == old(m).entry(r, c),
                forall|r: int|
                    (0 <= r <= j || i <= r < rows) ==> #[trigger] m.data@[r]@ == g0[r],
                forall|r: int|
                    j < r < i ==> #[trigger] m.data@[r]@ == row_update_spec(
                        g0[j as int],
                        g0[r],
                        j as int,
                    ),
            decreases hi - i,
        {
            let ghost m_pre = *m;
            eliminate_row(m, i, j);
            proof {
                assert forall|r: int| (0 <= r <= j || i + 1 <= r < rows) implies
                    #[trigger] m.data@[r]@ == g0[r] by {
                    assert forall|c: int| 0 <= c < m.cols implies m.data@[r]@[c]
                        == m_pre.data@[r]@[c] by {
                        assert(m.entry(r, c) == m_pre.entry(r, c));
                    }
                    assert(m.data@[r]@ =~= m_pre.data@[r]@);
                    assert(m_pre.data@[r]@ == g0[r]);
                }
                assert forall|r: int| j < r < i + 1 implies #[trigger] m.data@[r]@
                    == row_update_spec(g0[j as int], g0[r], j as int) by {
                    if r < i {
                        assert forall|c: int| 0 <= c < m.cols implies m.data@[r]@[c]
                            == m_pre.data@[r]@[c] by {
                            assert(m.entry(r, c) == m_pre.entry(r, c));
                        }
                        assert(m.data@[r]@ =~= m_pre.data@[r]@);
                    } else {
                        assert(m_pre.data@[j as int]@ == g0[j as int]);
                        assert(m_pre.data@[r]@ == g0[r]);
                    }
                }
            }
            i = i + 1;
        }
        t = t + 1;
    }
    proof {
        assert forall|r: int| 0 <= r < rows implies gview(*m)[r] =~= elim_col_spec(
            g0,
            j as int,
        )[r] by {
            if r <= j {
                assert(m.data@[r]@ == g0[r]);
            } else {
                assert(m.data@[r]@ == row_update_spec(g0[j as int], g0[r], j as int));
            }
        }
        assert(gview(*m) =~~= elim_col_spec(g0, j as int));
    }
}

/// Two exchanged rows make the swapped grid.
proof fn lemma_swap_is_spec(pre: AugMatrix, post: AugMatrix, a: int, b: int)
    requires
        pre.wf(),
        post.wf(),
        post.same_shape(pre),
        0 <= a < pre.spec_rows(),
        0 <= b < pre.spec_rows(),
        forall|c: int|
            0 <= c < pre.cols
                ==> post.entry(a, c) == pre.entry(b, c) && post.entry(b, c) == pre.entry(a, c),
        forall|r: int, c: int|
            0 <= r < pre.spec_rows() && 0 <= c < pre.cols && r != a && r != b
                ==> post.entry(r, c) == pre.entry(r, c),
    ensures
        gview(post) == swap_spec(gview(pre), a, b),
{
    assert forall|r: int| 0 <= r < gview(post).len() implies gview(post)[r] =~= swap_spec(
        gview(pre),
        a,
        b,
    )[r] by {
        assert forall|c: int| 0 <= c < pre.cols implies gview(post)[r][c] == swap_spec(
            gview(pre),
            a,
            b,
        )[r][c] by {
            if r == a {
                assert(post.entry(a, c) == pre.entry(b, c));
            } else if r == b {
                assert(post.entry(b, c) == pre.entry(a, c));
            } else {
                assert(post.entry(r, c) == pre.entry(r, c));
            }
        }
    }
    assert(gview(post) =~~= swap_spec(gview(pre), a, b));
}

/// Sequential back-substitution, rows from the bottom up: the solution
/// vector becomes exactly `back_sub_state` of the eliminated grid.
fn back_substitute(m: &AugMatrix, x: &mut Vec<Scalar>)
    requires
        m.wf(),
        m.cols == m.spec_rows() + 1,
        old(x).len() == m.spec_rows(),
    ensures
        final(x).len() == old(x).len(),
        final(x)@ == back_sub_state(gview(*m), old(x)@, 0),
{
    let ghost g = gview(*m);
    let z = scalar_zero();
    let rows = m.rows();
    let mut i: usize = rows;
    while i > 0
        invariant
            i <= rows,
            rows == m.spec_rows(),
            m.cols == rows + 1,
            m.wf(),
            g == gview(*m),
            z == zero_scalar(),
            x.len() == rows,
            x@ == back_sub_state(g, old(x)@, i as int),
        decreases i,
    {
        i = i - 1;
        let ghost xs = x@;
        let mut dot = z;
        let mut k: usize = i + 1;
        while k < rows
            invariant
                i + 1 <= k <= rows || k == i + 1,
                i < rows,
                rows == m.spec_rows(),
                m.cols == rows + 1,
                m.wf(),
                g == gview(*m),
                x.len() == rows,
                x@ == xs,
                dot == dot_prefix_spec(g[i as int], xs, i as int, k as int),
            decreases rows - k,
        {
            dot = scalar_add(dot, scalar_mul(m.get(i, k), x[k]));
            k = k + 1;
        }
        let v = scalar_div(scalar_sub(m.get(i, rows), dot), m.get(i, i));
        x.set(i, v);
        proof {
            assert(x@ == back_sub_state(g, old(x)@, i as int));
        }
    }
}

/// Gaussian elimination with partial pivoting over the whole augmented
/// system, then back-substitution into `x`.
///
/// `Ok` is returned exactly when `forward_spec` succeeds on the starting
/// grid: every column, as reached, has a cell testing nonzero on or
/// below the diagonal.  On `Ok` the matrix holds the recurrence's final
/// grid and `x` its back-substituted solution; on `Err` the error names
/// the very column `forward_spec` fails at — the one whose zero tests
/// all failed — and `x` is exactly what it was: a failed trial leaves no
/// half-written solution behind.
pub fn gauss_elimination(m: &mut AugMatrix, x: &mut Vec<Scalar>, workers: usize) -> (r: Result<
    (),
    SingularMatrixError,
>)
    requires
        old(m).wf(),
        old(m).cols == old(m).spec_rows() + 1,
        old(x).len() == old(m).spec_rows(),
        workers >= 1,
    ensures
        final(m).wf(),
        final(m).same_shape(*old(m)),
        final(x).len() == old(x).len(),
        match r {
            Ok(()) => forward_spec(gview(*old(m)), 0, old(m).spec_rows())
                == Ok::<Seq<Seq<Scalar>>, int>(gview(*final(m)))
                && final(x)@ == back_sub_state(gview(*final(m)), old(x)@, 0),
            Err(e) => e.column < old(m).spec_rows()
                && forward_spec(gview(*old(m)), 0, old(m).spec_rows())
                    == Err::<Seq<Seq<Scalar>>, int>(e.column as int) && final(x)@ == old(x)@,
        },
{
    let ghost g_orig = gview(*old(m));
    let z = scalar_zero();
    let rows = m.rows();
    let mut j: usize = 0;
    while j < rows
        invariant
            j <= rows,
            rows == m.spec_rows(),
            m.cols == rows + 1,
            m.wf(),
            m.same_shape(*old(m)),
            g_orig == gview(*old(m)),
            gview(*m).len() == rows,
            z == zero_scalar(),
            x.len() == rows,
            x@ == old(x)@,
            workers >= 1,
            forward_spec(g_orig, 0, rows as int) == forward_spec(gview(*m), j as int, rows as int),
        decreases rows - j,
    {
        let ghost g_j = gview(*m);
        if scalar_eq(m.get(j, j), z) {
            proof {
                assert(spec_eq(g_j[j as int][j as int], zero_scalar()));
            }
            let flags = subdiagonal_nonzero_flags(m, j);
            match first_true(&flags) {
                None => {
                    proof {
                        assert forall|r: int| j + 1 <= r < rows implies spec_eq(
                            #[trigger] g_j[r][j as int],
                            zero_scalar(),
                        ) by {
                            assert(!flags@[r - j - 1]);
                        }
                        lemma_no_nonzero(g_j, j as int, j as int + 1);
                        assert(pivot_fix_spec(g_j, j as int) is None);
                        assert(forward_spec(g_j, j as int, rows as int)
                            == Err::<Seq<Seq<Scalar>>, int>(j as int));
                    }
                    return Err(SingularMatrixError { column: j });
                },
                Some(off) => {
                    let pivot_row = j + 1 + off;
                    proof {
                        assert(flags@[off as int]);
                        assert(!spec_eq(g_j[pivot_row as int][j as int], zero_scalar()));
                        assert forall|r: int| j + 1 <= r < pivot_row implies spec_eq(
                            #[trigger] g_j[r][j as int],
                            zero_scalar(),
                        ) by {
                            assert(!flags@[r - j - 1]);
                        }
                        lemma_first_at(g_j, j as int, j as int + 1, pivot_row as int);
                    }
                    let ghost m_pre = *m;
                    m.swap_rows(j, pivot_row);
                    proof {
                        lemma_swap_is_spec(m_pre, *m, j as int, pivot_row as int);
                        assert(pivot_fix_spec(g_j, j as int) == Some(gview(*m)));
                    }
                },
            }
        } else {
            proof {
                assert(!spec_eq(g_j[j as int][j as int], zero_scalar()));
                assert(pivot_fix_spec(g_j, j as int) == Some(gview(*m)));
            }
        }
        let ghost g_fixed = gview(*m);
        proof {
            assert(pivot_fix_spec(g_j, j as int) == Some(g_fixed));
        }
        eliminate_below(m, j, workers);
        proof {
            assert(gview(*m) == elim_col_spec(g_fixed, j as int));
            assert(forward_spec(g_j, j as int, rows as int) == forward_spec(
                gview(*m),
                j as int + 1,
                rows as int,
            ));
        }
        j = j + 1;
    }

    proof {
        assert(forward_spec(gview(*m), rows as int, rows as int)
            == Ok::<Seq<Seq<Scalar>>, int>(gview(*m)));
    }
    back_substitute(m, x);
    Ok(())
}

} // verus!
