//! Threshold-crossing boundary extraction from a solved potential field.
//!
//! The field is scanned in row-major order: rows outermost, interior
//! columns within a row.  A cell below the threshold is skipped.  For a
//! cell at or above it, the neighbors are inspected in the fixed priority
//! order up, down, left, right — the asymmetry is deliberate and is
//! preserved exactly — and the first neighbor below the threshold has its
//! coordinate appended; at most one coordinate per scanned cell.
//!
//! Whether a cell clears the threshold is an opaque scalar comparison, so
//! the extraction is split: the comparisons produce a boolean field, and
//! the walk over that field is specified exactly, cell by cell, by
//! `iso_surface`.

use vstd::prelude::*;

verus! {

use crate::lattice::{fidx, spec_fidx, spec_n_unk, MAX_SIDE};
use crate::scalar::{scalar_lt, spec_lt, Scalar};

/// The flag of cell (row, col): true when the field there is at or above
/// the threshold.
pub open spec fn flag_at(b: Seq<bool>, l: int, row: int, col: int) -> bool {
    b[spec_fidx(row, col, l)]
}

/// What the scan appends for one cell: nothing when the cell is below
/// the threshold, else the coordinate of its first below-threshold
/// neighbor in the priority order up, down, left, right — nothing when
/// no neighbor qualifies.
pub open spec fn cell_contrib(b: Seq<bool>, l: int, row: int, col: int) -> Seq<(usize, usize)> {
    if !flag_at(b, l, row, col) {
        seq![]
    } else if row > 0 && !flag_at(b, l, row - 1, col) {
        seq![(((row - 1) as usize), (col as usize))]
    } else if row < l - 1 && !flag_at(b, l, row + 1, col) {
        seq![(((row + 1) as usize), (col as usize))]
    } else if col > 0 && !flag_at(b, l, row, col - 1) {
        seq![((row as usize), ((col - 1) as usize))]
    } else if col < l - 3 && !flag_at(b, l, row, col + 1) {
        seq![((row as usize), ((col + 1) as usize))]
    } else {
        seq![]
    }
}

/// The concatenated contributions of the first `col_end` cells of one
/// row, in column order.
pub open spec fn row_contrib(b: Seq<bool>, l: int, row: int, col_end: int) -> Seq<(usize, usize)>
    decreases col_end,
{
    if col_end <= 0 {
        seq![]
    } else {
        row_contrib(b, l, row, col_end - 1) + cell_contrib(b, l, row, col_end - 1)
    }
}

/// The whole boundary of the flag field `b`: the contributions of the
/// first `row_end` rows in scan order.
pub open spec fn iso_surface(b: Seq<bool>, l: int, row_end: int) -> Seq<(usize, usize)>
    decreases row_end,
{
    if row_end <= 0 {
        seq![]
    } else {
        iso_surface(b, l, row_end - 1) + row_contrib(b, l, row_end - 1, l - 2)
    }
}

/// The verified walk: extracts the boundary of an explicit boolean
/// field, and returns exactly what `iso_surface` names.
pub fn isosurface_from_flags(flags: &Vec<bool>, l: usize) -> (surface: Vec<(usize, usize)>)
    requires
        3 <= l <= MAX_SIDE,
        flags@.len() == spec_n_unk(l as int),
    ensures
        surface@ == iso_surface(flags@, l as int, l as int),
{
    let ghost li = l as int;
    let mut surface: Vec<(usize, usize)> = Vec::new();
    let mut row: usize = 0;
    while row < l
        invariant
            3 <= l <= MAX_SIDE,
            li == l as int,
            row <= l,
            flags@.len() == spec_n_unk(li),
            surface@ == iso_surface(flags@, li, row as int),
        decreases l - row,
    {
        let mut col: usize = 0;
        while col < l - 2
            invariant
                3 <= l <= MAX_SIDE,
                li == l as int,
                row < l,
                col <= l - 2,
                flags@.len() == spec_n_unk(li),
                surface@ == iso_surface(flags@, li, row as int)
                    + row_contrib(flags@, li, row as int, col as int),
            decreases l - 2 - col,
        {
            let ghost before = surface@;
            if flags[fidx(row, col, l)] {
                if row > 0 && !flags[fidx(row - 1, col, l)] {
                    surface.push((row - 1, col));
                } else if row < l - 1 && !flags[fidx(row + 1, col, l)] {
                    surface.push((row + 1, col));
                } else if col > 0 && !flags[fidx(row, col - 1, l)] {
                    surface.push((row, col - 1));
                } else if col < l - 3 && !flags[fidx(row, col + 1, l)] {
                    surface.push((row, col + 1));
                }
            }
            proof {
                assert(surface@ =~= before + cell_contrib(flags@, li, row as int, col as int));
                assert(surface@ =~= iso_surface(flags@, li, row as int)
                    + row_contrib(flags@, li, row as int, col as int + 1));
            }
            col = col + 1;
        }
        proof {
            assert(surface@ =~= iso_surface(flags@, li, row as int + 1));
        }
        row = row + 1;
    }
    surface
}

/// Every coordinate of the scan lies in the grid.
pub open spec fn coords_in_grid(s: Seq<(usize, usize)>, l: int) -> bool {
    forall|k: int| 0 <= k < s.len() ==> (#[trigger] s[k]).0 < l && s[k].1 < l - 2
}

proof fn lemma_row_contrib_in_grid(b: Seq<bool>, l: int, row: int, col_end: int)
    requires
        3 <= l,
        0 <= row < l,
        0 <= col_end <= l - 2,
    ensures
        coords_in_grid(row_contrib(b, l, row, col_end), l),
    decreases col_end,
{
    if col_end > 0 {
        lemma_row_contrib_in_grid(b, l, row, col_end - 1);
    }
}

/// Whatever the flags, every appended coordinate names a cell of the
/// interior grid: a row below `l` and a column below `l - 2`.
pub proof fn lemma_iso_surface_in_grid(b: Seq<bool>, l: int, row_end: int)
    requires
        3 <= l,
        0 <= row_end <= l,
    ensures
        coords_in_grid(iso_surface(b, l, row_end), l),
    decreases row_end,
{
    if row_end > 0 {
        lemma_iso_surface_in_grid(b, l, row_end - 1);
        lemma_row_contrib_in_grid(b, l, row_end - 1, l - 2);
    }
}

/// A flag field that depends on the column alone: set exactly for the
/// columns from `t` on — the shape a potential ramping monotonically
/// across columns produces at a threshold crossing before column `t`.
pub open spec fn column_threshold_flags(b: Seq<bool>, l: int, t: int) -> bool {
    b.len() == spec_n_unk(l)
        && forall|row: int, col: int|
            0 <= row < l && 0 <= col < l - 2 ==> flag_at(b, l, row, col) == (col >= t)
}

proof fn lemma_ramp_row(b: Seq<bool>, l: int, t: int, row: int, col_end: int)
    requires
        3 <= l,
        1 <= t <= l - 3,
        column_threshold_flags(b, l, t),
        0 <= row < l,
        0 <= col_end <= l - 2,
    ensures
        row_contrib(b, l, row, col_end) == if col_end > t {
            seq![((row as usize), ((t - 1) as usize))]
        } else {
            Seq::<(usize, usize)>::empty()
        },
    decreases col_end,
{
    if col_end > 0 {
        lemma_ramp_row(b, l, t, row, col_end - 1);
        let col = col_end - 1;
        if col < t {
            assert(!flag_at(b, l, row, col));
            assert(cell_contrib(b, l, row, col) =~= Seq::<(usize, usize)>::empty());
        } else if col == t {
            assert(flag_at(b, l, row, col));
            assert(row > 0 ==> flag_at(b, l, row - 1, col));
            assert(row < l - 1 ==> flag_at(b, l, row + 1, col));
            assert(!flag_at(b, l, row, col - 1));
            assert(cell_contrib(b, l, row, col) =~= seq![((row as usize), ((t - 1) as usize))]);
        } else {
            assert(flag_at(b, l, row, col));
            assert(row > 0 ==> flag_at(b, l, row - 1, col));
            assert(row < l - 1 ==> flag_at(b, l, row + 1, col));
            assert(flag_at(b, l, row, col - 1));
            assert(col < l - 3 ==> flag_at(b, l, row, col + 1));
            assert(cell_contrib(b, l, row, col) =~= Seq::<(usize, usize)>::empty());
        }
        assert(row_contrib(b, l, row, col_end) =~= if col_end > t {
            seq![((row as usize), ((t - 1) as usize))]
        } else {
            Seq::<(usize, usize)>::empty()
        });
    }
}

/// The boundary of a monotone column ramp: when the flags are set
/// exactly from column `t` on, the scan emits exactly one coordinate per
/// row, every one in column `t - 1` — the column straddling the
/// crossing — in row order.
pub proof fn lemma_ramp_one_per_row(b: Seq<bool>, l: int, t: int, row_end: int)
    requires
        3 <= l,
        1 <= t <= l - 3,
        column_threshold_flags(b, l, t),
        0 <= row_end <= l,
    ensures
        iso_surface(b, l, row_end) == Seq::new(
            row_end as nat,
            |row: int| ((row as usize), ((t - 1) as usize)),
        ),
    decreases row_end,
{
    if row_end > 0 {
        lemma_ramp_one_per_row(b, l, t, row_end - 1);
        lemma_ramp_row(b, l, t, row_end - 1, l - 2);
        assert(iso_surface(b, l, row_end) =~= Seq::new(
            row_end as nat,
            |row: int| ((row as usize), ((t - 1) as usize)),
        ));
    } else {
        assert(iso_surface(b, l, row_end) =~= Seq::new(
            row_end as nat,
            |row: int| ((row as usize), ((t - 1) as usize)),
        ));
    }
}

/// The flag field of a solved potential vector at a threshold: set at
/// index i exactly when x[i] does not test below the threshold.
pub open spec fn threshold_flags_spec(xs: Seq<Scalar>, value: Scalar) -> Seq<bool> {
    Seq::new(xs.len(), |i: int| !spec_lt(xs[i], value))
}

/// The threshold flags of a solved field: cell (row, col) is set exactly
/// when its potential is not below `value`.
fn threshold_flags(x: &Vec<Scalar>, value: Scalar, l: usize) -> (flags: Vec<bool>)
    requires
        3 <= l <= MAX_SIDE,
        x@.len() == spec_n_unk(l as int),
    ensures
        flags@ == threshold_flags_spec(x@, value),
{
    let n = x.len();
    let mut flags: Vec<bool> = Vec::new();
    let mut i: usize = 0;
    while i < n
        invariant
            i <= n,
            n == x@.len(),
            flags.len() == i,
            forall|k: int| 0 <= k < i ==> flags@[k] == !spec_lt(x@[k], value),
        decreases n - i,
    {
        flags.push(!scalar_lt(x[i], value));
        i = i + 1;
    }
    proof {
        assert(flags@ =~= threshold_flags_spec(x@, value));
    }
    flags
}

/// Extract the threshold-crossing boundary of the solved field `x` at
/// level `value`: exactly the scan `iso_surface` names, over the flag
/// field the primitive threshold comparisons produce.
pub fn compute_isosurface(x: &Vec<Scalar>, value: Scalar, l: usize) -> (surface: Vec<
    (usize, usize),
>)
    requires
        3 <= l <= MAX_SIDE,
        x@.len() == spec_n_unk(l as int),
    ensures
        surface@ == iso_surface(threshold_flags_spec(x@, value), l as int, l as int),
{
    let flags = threshold_flags(x, value, l);
    isosurface_from_flags(&flags, l)
}

} // verus!
