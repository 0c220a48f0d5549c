//! Lattice topology: node counting and linear indexing.
//!
//! The lattice has side length `l`: nodes live at coordinates
//! (row, col) with row below `l` and col below `l - 2` (the two boundary
//! columns are held at fixed rail voltages and are not unknowns).  A node's
//! linear index is row + col * l.  Resistors are enumerated in a fixed
//! order: vertical edges, then internal horizontal edges, then the
//! high-rail edges at column zero, then the low-rail edges at the last
//! interior column.

use vstd::prelude::*;

verus! {

/// Largest supported side length: keeps every index computation of one
/// lattice within the range every platform's `usize` holds.
pub const MAX_SIDE: usize = 30000;

/// Number of unknown node potentials of a side-`l` lattice.
pub open spec fn spec_n_unk(l: int) -> int {
    l * (l - 2)
}

/// Number of resistors of a side-`l` lattice: vertical edges, internal
/// horizontal edges, and one high-rail plus one low-rail edge per row.
pub open spec fn spec_n_res(l: int) -> int {
    (l - 2) * (l - 1) + (l - 3) * l + 2 * l
}

/// Linear index of the node at (row `i`, column `j`).
pub open spec fn spec_fidx(i: int, j: int, l: int) -> int {
    i + j * l
}

/// Node count of the lattice, computed without overflow.
pub fn n_unk(l: usize) -> (r: usize)
    requires
        3 <= l <= MAX_SIDE,
    ensures
        r == spec_n_unk(l as int),
{
    proof {
        assert(l * (l - 2) <= MAX_SIDE * (MAX_SIDE - 2)) by (nonlinear_arith)
            requires 3 <= l <= MAX_SIDE;
    }
    l * (l - 2)
}

/// Resistor count of the lattice, computed without overflow.
pub fn n_res(l: usize) -> (r: usize)
    requires
        3 <= l <= MAX_SIDE,
    ensures
        r == spec_n_res(l as int),
{
    proof {
        assert((l - 2) * (l - 1) <= MAX_SIDE * MAX_SIDE && (l - 3) * l <= MAX_SIDE * MAX_SIDE)
            by (nonlinear_arith)
            requires 3 <= l <= MAX_SIDE;
    }
    (l - 2) * (l - 1) + (l - 3) * l + 2 * l
}

/// Linear index of the node at (row `i`, column `j`): row-major within a
/// column, columns `l` apart.
pub fn fidx(i: usize, j: usize, l: usize) -> (r: usize)
    requires
        3 <= l <= MAX_SIDE,
        i < l,
        j < l - 2,
    ensures
        r == spec_fidx(i as int, j as int, l as int),
        r < spec_n_unk(l as int),
{
    proof {
        assert(i + j * l < l * (l - 2) && l * (l - 2) <= MAX_SIDE * (MAX_SIDE - 2))
            by (nonlinear_arith)
            requires i < l && j < l - 2 && 3 <= l <= MAX_SIDE;
    }
    i + j * l
}

/// Distinct node coordinates get distinct linear indices: the per-worker
/// write sets the elimination partitions by row index never alias.
pub proof fn lemma_fidx_injective(i1: int, j1: int, i2: int, j2: int, l: int)
    requires
        3 <= l,
        0 <= i1 < l,
        0 <= i2 < l,
        0 <= j1,
        0 <= j2,
        spec_fidx(i1, j1, l) == spec_fidx(i2, j2, l),
    ensures
        i1 == i2 && j1 == j2,
{
    assert(i1 == i2 && j1 == j2) by (nonlinear_arith)
        requires
            3 <= l,
            0 <= i1 < l,
            0 <= i2 < l,
            0 <= j1,
            0 <= j2,
            i1 + j1 * l == i2 + j2 * l;
}

} // verus!
