//! The dense augmented matrix one trial owns.
//!
//! `AugMatrix` is a row-major grid of scalars with one extra column: the
//! last column is the right-hand side of the linear system.  The trial
//! loop zeroes it before assembly so nothing leaks from one trial into the
//! next, and elimination mutates it in place.  The contracts here pin
//! down exactly which cells each operation changes and to what.

use vstd::prelude::*;

verus! {

use crate::scalar::{scalar_zero, zero_scalar, Scalar};

pub struct AugMatrix {
    pub data: Vec<Vec<Scalar>>,
    pub cols: usize,
}

impl AugMatrix {
    /// Number of rows.
    pub open spec fn spec_rows(self) -> int {
        self.data.len() as int
    }

    /// Shape is consistent: every row holds exactly `cols` scalars.
    pub open spec fn wf(self) -> bool {
        forall|r: int|
            0 <= r < self.data.len() ==> (#[trigger] self.data@[r]).len() == self.cols
    }

    /// The scalar at row `i`, column `j`.
    pub open spec fn entry(self, i: int, j: int) -> Scalar {
        self.data@[i]@[j]
    }

    /// Every in-range cell holds the scalar `z`.
    pub open spec fn const_entries(self, z: Scalar) -> bool {
        forall|i: int, j: int|
            0 <= i < self.spec_rows() && 0 <= j < self.cols ==> #[trigger] self.entry(i, j) == z
    }

    /// Both matrices have the same shape.
    pub open spec fn same_shape(self, other: AugMatrix) -> bool {
        self.spec_rows() == other.spec_rows() && self.cols == other.cols
    }

    pub fn rows(&self) -> (r: usize)
        ensures
            r == self.spec_rows(),
    {
        self.data.len()
    }

    /// A freshly allocated matrix with every cell holding the zero
    /// scalar.
    pub fn zeroed(rows: usize, cols: usize) -> (m: AugMatrix)
        ensures
            m.wf(),
            m.spec_rows() == rows,
            m.cols == cols,
            m.const_entries(zero_scalar()),
    {
        let z = scalar_zero();
        let mut data: Vec<Vec<Scalar>> = Vec::new();
        while data.len() < rows
            invariant
                data.len() <= rows,
                forall|r: int|
                    0 <= r < data.len() ==> (#[trigger] data@[r]).len() == cols,
                forall|r: int, c: int|
                    0 <= r < data.len() && 0 <= c < cols ==> #[trigger] data@[r]@[c] == z,
            decreases rows - data.len(),
        {
            let mut row: Vec<Scalar> = Vec::new();
            while row.len() < cols
                invariant
                    row.len() <= cols,
                    forall|c: int| 0 <= c < row.len() ==> #[trigger] row@[c] == z,
                decreases cols - row.len(),
            {
                row.push(z);
            }
            data.push(row);
        }
        let m = AugMatrix { data, cols };
        proof {
            assert(m.const_entries(z));
        }
        m
    }

    /// Overwrite every cell with the zero scalar, keeping the shape:
    /// run before each trial's assembly so no values survive from the
    /// trial before.
    pub fn zero_fill(&mut self)
        requires
            old(self).wf(),
        ensures
            final(self).wf(),
            final(self).same_shape(*old(self)),
            final(self).const_entries(zero_scalar()),
    {
        let z = scalar_zero();
        let rows = self.data.len();
        let cols = self.cols;
        let mut i: usize = 0;
        while i < rows
            invariant
                i <= rows,
                rows == self.data.len(),
                cols == self.cols,
                self.wf(),
                forall|r: int, c: int|
                    0 <= r < i && 0 <= c < cols ==> #[trigger] self.data@[r]@[c] == z,
            decreases rows - i,
        {
            let mut j: usize = 0;
            while j < cols
                invariant
                    i < rows,
                    j <= cols,
                    rows == self.data.len(),
                    cols == self.cols,
                    self.wf(),
                    forall|r: int, c: int|
                        0 <= r < i && 0 <= c < cols ==> #[trigger] self.data@[r]@[c] == z,
                    forall|c: int| 0 <= c < j ==> #[trigger] self.data@[i as int]@[c] == z,
                decreases cols - j,
            {
                self.data[i][j] = z;
                j = j + 1;
            }
            i = i + 1;
        }
        proof {
            assert(self.const_entries(z));
        }
    }

    /// Read one cell.
    pub fn get(&self, i: usize, j: usize) -> (r: Scalar)
        requires
            self.wf(),
            i < self.spec_rows(),
            j < self.cols,
        ensures
            r == self.entry(i as int, j as int),
    {
        self.data[i][j]
    }

    /// Write one cell, leaving every other cell as it was.
    pub fn set(&mut self, i: usize, j: usize, v: Scalar)
        requires
            old(self).wf(),
            i < old(self).spec_rows(),
            j < old(self).cols,
        ensures
            final(self).wf(),
            final(self).same_shape(*old(self)),
            final(self).entry(i as int, j as int) == v,
            forall|r: int, c: int|
                0 <= r < old(self).spec_rows() && 0 <= c < old(self).cols && !(r == i && c == j)
                    ==> final(self).entry(r, c) == old(self).entry(r, c),
    {
        self.data[i][j] = v;
    }

    /// Exchange rows `r1` and `r2` in full, the right-hand side column
    /// included; every other row keeps its cells.
    pub fn swap_rows(&mut self, r1: usize, r2: usize)
        requires
            old(self).wf(),
            r1 < old(self).spec_rows(),
            r2 < old(self).spec_rows(),
        ensures
            final(self).wf(),
            final(self).same_shape(*old(self)),
            forall|c: int|
                0 <= c < old(self).cols
                    ==> final(self).entry(r1 as int, c) == old(self).entry(r2 as int, c)
                        && final(self).entry(r2 as int, c) == old(self).entry(r1 as int, c),
            forall|r: int, c: int|
                0 <= r < old(self).spec_rows() && 0 <= c < old(self).cols && r != r1 && r != r2
                    ==> final(self).entry(r, c) == old(self).entry(r, c),
    {
        let cols = self.cols;
        let mut col: usize = 0;
        while col < cols
            invariant
                col <= cols,
                cols == self.cols,
                r1 < self.data.len(),
                r2 < self.data.len(),
                self.wf(),
                self.same_shape(*old(self)),
                forall|c: int|
                    0 <= c < col
                        ==> self.entry(r1 as int, c) == old(self).entry(r2 as int, c)
                            && self.entry(r2 as int, c) == old(self).entry(r1 as int, c),
                forall|c: int|
                    col <= c < cols
                        ==> self.entry(r1 as int, c) == old(self).entry(r1 as int, c)
                            && self.entry(r2 as int, c) == old(self).entry(r2 as int, c),
                forall|r: int, c: int|
                    0 <= r < self.data.len() && 0 <= c < cols && r != r1 && r != r2
                        ==> self.entry(r, c) == old(self).entry(r, c),
            decreases cols - col,
        {
            let a = self.data[r1][col];
            let b = self.data[r2][col];
            self.data[r1][col] = b;
            self.data[r2][col] = a;
            col = col + 1;
        }
    }
}

} // verus!
