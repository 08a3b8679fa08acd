//! The missing/bouncing/sticking diagnostic sample triple used for
//! soak-testing key switches, with its pass/fail verdict.

use vstd::prelude::*;

use crate::matrix::Matrix;

verus! {

/// Which stimulus pattern the firmware performs before sampling.
#[derive(Clone, Copy, Debug, Eq, Hash, PartialEq, Structural)]
pub enum SelmaKind {
    Normal,
    Bouncing,
}

/// One diagnostic sample set: three same-purpose matrices, one boolean
/// cell-classification per physical key position. The matrices may differ
/// in shape if older firmware reports fewer rows.
#[derive(Debug)]
pub struct Selma {
    pub missing: Matrix,
    pub bouncing: Matrix,
    pub sticking: Matrix,
}

/// Every in-bounds cell of the matrix is false.
pub open spec fn matrix_clear(m: &Matrix) -> bool {
    forall|r: int, c: int|
        0 <= r < m.spec_rows() && 0 <= c < m.spec_cols() ==> !m.cell(r, c)
}

impl Selma {
    pub open spec fn wf(&self) -> bool {
        self.missing.wf() && self.bouncing.wf() && self.sticking.wf()
    }

    /// No cell of any component matrix reports a fault.
    pub open spec fn all_clear(&self) -> bool {
        matrix_clear(&self.missing) && matrix_clear(&self.bouncing) && matrix_clear(&self.sticking)
    }

    pub open spec fn max_rows_spec(&self) -> int {
        max3(
            self.missing.spec_rows() as int,
            self.bouncing.spec_rows() as int,
            self.sticking.spec_rows() as int,
        )
    }

    pub open spec fn max_cols_spec(&self) -> int {
        max3(
            self.missing.spec_cols() as int,
            self.bouncing.spec_cols() as int,
            self.sticking.spec_cols() as int,
        )
    }

    /// The largest row count among the three component matrices.
    pub fn max_rows(&self) -> (r: usize)
        ensures
            r == self.max_rows_spec(),
    {
        max_usize(self.missing.rows(), max_usize(self.bouncing.rows(), self.sticking.rows()))
    }

    /// The largest column count among the three component matrices.
    pub fn max_cols(&self) -> (r: usize)
        ensures
            r == self.max_cols_spec(),
    {
        max_usize(self.missing.cols(), max_usize(self.bouncing.cols(), self.sticking.cols()))
    }

    /// The verdict of the sample: true exactly when every cell in every
    /// component matrix is false.
    pub fn success(&self) -> (r: bool)
        requires
            self.wf(),
        ensures
            r == self.all_clear(),
    {
        scan_clear(&self.missing) && scan_clear(&self.bouncing) && scan_clear(&self.sticking)
    }
}

/// A sample whose three component matrices are all-false succeeds.
pub proof fn lemma_all_false_success(s: &Selma)
    requires
        matrix_clear(&s.missing),
        matrix_clear(&s.bouncing),
        matrix_clear(&s.sticking),
    ensures
        s.all_clear(),
{
}

/// A single true cell in the `missing` matrix fails the whole sample;
/// the same argument applies to `bouncing` and `sticking` by symmetry
/// (see the companion lemmas below).
pub proof fn lemma_missing_flag_fails(s: &Selma, r: int, c: int)
    requires
        0 <= r < s.missing.spec_rows(),
        0 <= c < s.missing.spec_cols(),
        s.missing.cell(r, c),
    ensures
        !s.all_clear(),
{
}

/// A single true cell in the `bouncing` matrix fails the whole sample.
pub proof fn lemma_bouncing_flag_fails(s: &Selma, r: int, c: int)
    requires
        0 <= r < s.bouncing.spec_rows(),
        0 <= c < s.bouncing.spec_cols(),
        s.bouncing.cell(r, c),
    ensures
        !s.all_clear(),
{
}

/// A single true cell in the `sticking` matrix fails the whole sample.
pub proof fn lemma_sticking_flag_fails(s: &Selma, r: int, c: int)
    requires
        0 <= r < s.sticking.spec_rows(),
        0 <= c < s.sticking.spec_cols(),
        s.sticking.cell(r, c),
    ensures
        !s.all_clear(),
{
}

pub open spec fn max3(a: int, b: int, c: int) -> int {
    if a >= b && a >= c {
        a
    } else if b >= c {
        b
    } else {
        c
    }
}

fn max_usize(a: usize, b: usize) -> (r: usize)
    ensures
        r == if a >= b { a as int } else { b as int },
{
    if a >= b {
        a
    } else {
        b
    }
}

/// Scan one matrix for any set cell.
fn scan_clear(m: &Matrix) -> (r: bool)
    requires
        m.wf(),
    ensures
        r == matrix_clear(m),
{
    let rows = m.rows();
    let cols = m.cols();
    let mut row: usize = 0;
    while row < rows
        invariant
            m.wf(),
            rows == m.spec_rows(),
            cols == m.spec_cols(),
            row <= rows,
            forall|r: int, c: int| 0 <= r < row && 0 <= c < cols ==> !m.cell(r, c),
        decreases rows - row,
    {
        let mut col: usize = 0;
        while col < cols
            invariant
                m.wf(),
                rows == m.spec_rows(),
                cols == m.spec_cols(),
                row < rows,
                col <= cols,
                forall|r: int, c: int| 0 <= r < row && 0 <= c < cols ==> !m.cell(r, c),
                forall|c: int| 0 <= c < col ==> !m.cell(row as int, c),
            decreases cols - col,
        {
            if m.get(row, col).unwrap_or(false) {
                return false;
            }
            col = col + 1;
        }
        row = row + 1;
    }
    true
}

} // verus!
