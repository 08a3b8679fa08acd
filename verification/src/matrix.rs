//! A rectangular boolean grid representing raw key-switch electrical state.

use vstd::prelude::*;

verus! {

/// One electrical snapshot of the key matrix: a `rows` x `cols` grid of
/// booleans stored row-major. Out-of-bounds reads return `None`, which
/// callers treat as "no signal".
#[derive(Debug)]
pub struct Matrix {
    rows: usize,
    cols: usize,
    data: Vec<bool>,
}

impl Matrix {
    /// The grid holds exactly one cell per position.
    pub closed spec fn wf(&self) -> bool {
        self.data.len() == self.rows * self.cols
    }

    pub closed spec fn spec_rows(&self) -> usize {
        self.rows
    }

    pub closed spec fn spec_cols(&self) -> usize {
        self.cols
    }

    /// The cell at `(r, c)`, for in-bounds positions.
    pub closed spec fn cell(&self, r: int, c: int) -> bool {
        self.data[r * self.cols + c]
    }

    pub fn new(rows: usize, cols: usize, data: Vec<bool>) -> (m: Matrix)
        requires
            data.len() == rows * cols,
        ensures
            m.wf(),
            m.spec_rows() == rows,
            m.spec_cols() == cols,
            forall|r: int, c: int|
                0 <= r < rows && 0 <= c < cols ==> m.cell(r, c) == data[r * cols + c],
    {
        Matrix { rows, cols, data }
    }

    pub fn rows(&self) -> (r: usize)
        ensures
            r == self.spec_rows(),
    {
        self.rows
    }

    pub fn cols(&self) -> (c: usize)
        ensures
            c == self.spec_cols(),
    {
        self.cols
    }

    /// Bounds-checked access: `None` exactly when the position lies outside
    /// the grid, otherwise the stored cell.
    pub fn get(&self, row: usize, col: usize) -> (r: Option<bool>)
        requires
            self.wf(),
        ensures
            (row >= self.spec_rows() || col >= self.spec_cols()) <==> r is None,
            r matches Some(b) ==> b == self.cell(row as int, col as int),
    {
        if row >= self.rows || col >= self.cols {
            None
        } else {
            proof {
                lemma_row_major_index_in_bounds(
                    self.rows as int,
                    self.cols as int,
                    row as int,
                    col as int,
                );
            }
            Some(self.data[row * self.cols + col])
        }
    }
}

/// Row-major indexing stays inside a `rows * cols` buffer.
proof fn lemma_row_major_index_in_bounds(rows: int, cols: int, r: int, c: int)
    requires
        0 <= r < rows,
        0 <= c < cols,
    ensures
        0 <= r * cols + c < rows * cols,
{
    assert(0 <= r * cols + c < rows * cols) by (nonlinear_arith)
        requires
            0 <= r < rows,
            0 <= c < cols,
    ;
}

} // verus!
