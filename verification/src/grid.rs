//! A two-dimensional grid of numbers in row-major order, used as the
//! dynamic-programming table of the diff computation.

use vstd::prelude::*;

use std::io::Write;

verus! {

/// A rectangular grid of `usize` values.
pub struct Grid {
    num_rows: usize,
    num_cols: usize,
    elems: Vec<usize>,
}

/// Two distinct in-range cells occupy distinct row-major positions.
proof fn lemma_rowmajor_injective(a: int, b: int, r: int, c: int, cols: int)
    requires
        0 <= b < cols,
        0 <= c < cols,
        0 <= a,
        0 <= r,
        a * cols + b == r * cols + c,
    ensures
        a == r,
        b == c,
{
    assert(a == r && b == c) by (nonlinear_arith)
        requires
            0 <= b < cols,
            0 <= c < cols,
            0 <= a,
            0 <= r,
            a * cols + b == r * cols + c,
    ;
}

impl Grid {
    /// Well-formedness: the element store covers exactly the rectangle.
    pub closed spec fn wf(&self) -> bool {
        self.elems@.len() == self.num_rows * self.num_cols
    }

    /// The number of rows.
    pub closed spec fn spec_rows(&self) -> usize {
        self.num_rows
    }

    /// The number of columns.
    pub closed spec fn spec_cols(&self) -> usize {
        self.num_cols
    }

    /// The value at an in-range cell, `None` outside the rectangle.
    pub closed spec fn spec_get(&self, row: int, col: int) -> Option<usize> {
        if 0 <= row < self.num_rows && 0 <= col < self.num_cols {
            Some(self.elems@[row * self.num_cols + col])
        } else {
            None
        }
    }

    /// A grid of the given size, all cells zero.
    pub fn new(num_rows: usize, num_cols: usize) -> (r: Grid)
        requires
            num_rows * num_cols <= usize::MAX,
        ensures
            r.wf(),
            r.spec_rows() == num_rows,
            r.spec_cols() == num_cols,
            forall|a: int, b: int|
                0 <= a < num_rows && 0 <= b < num_cols ==> r.spec_get(a, b) == Some(0usize),
    {
        let n = num_rows * num_cols;
        let mut elems: Vec<usize> = Vec::new();
        let mut i: usize = 0;
        while i < n
            invariant
                0 <= i <= n,
                elems@.len() == i,
                forall|k: int| 0 <= k < i ==> elems@[k] == 0,
            decreases n - i,
        {
            elems.push(0);
            i = i + 1;
        }
        let g = Grid { num_rows, num_cols, elems };
        proof {
            assert forall|a: int, b: int|
                0 <= a < num_rows && 0 <= b < num_cols implies g.spec_get(a, b) == Some(
                0usize,
            ) by {
                assert(0 <= a * num_cols + b < num_rows * num_cols) by (nonlinear_arith)
                    requires
                        0 <= a < num_rows,
                        0 <= b < num_cols,
                ;
            }
        }
        g
    }

    /// The grid's size as (rows, columns).
    pub fn size(&self) -> (r: (usize, usize))
        ensures
            r.0 == self.spec_rows(),
            r.1 == self.spec_cols(),
    {
        (self.num_rows, self.num_cols)
    }

    /// Reads the value at a cell, `None` outside the rectangle.
    pub fn get(&self, row: usize, col: usize) -> (r: Option<usize>)
        requires
            self.wf(),
        ensures
            r == self.spec_get(row as int, col as int),
    {
        if row < self.num_rows && col < self.num_cols {
            let total = self.elems.len();
            proof {
                assert(0 <= row * self.num_cols + col < self.num_rows * self.num_cols)
                    by (nonlinear_arith)
                    requires
                        0 <= (row as int) < self.num_rows,
                        0 <= (col as int) < self.num_cols,
                ;
                assert(row * self.num_cols + col < total);
            }
            Some(self.elems[row * self.num_cols + col])
        } else {
            None
        }
    }

    /// Writes the value at a cell; out of the rectangle nothing changes
    /// and an error is reported.
    pub fn set(&mut self, row: usize, col: usize, val: usize) -> (r: Result<(), ()>)
        requires
            old(self).wf(),
        ensures
            final(self).wf(),
            final(self).spec_rows() == old(self).spec_rows(),
            final(self).spec_cols() == old(self).spec_cols(),
            r is Ok <==> (row < old(self).spec_rows() && col < old(self).spec_cols()),
            r is Ok ==> forall|a: int, b: int|
                final(self).spec_get(a, b) == (if a == row && b == col {
                    Some(val)
                } else {
                    old(self).spec_get(a, b)
                }),
            r is Err ==> *final(self) == *old(self),
    {
        if row < self.num_rows && col < self.num_cols {
            let total = self.elems.len();
            proof {
                assert(0 <= row * self.num_cols + col < self.num_rows * self.num_cols)
                    by (nonlinear_arith)
                    requires
                        0 <= (row as int) < self.num_rows,
                        0 <= (col as int) < self.num_cols,
                ;
                assert(row * self.num_cols + col < total);
            }
            self.elems[row * self.num_cols + col] = val;
            proof {
                assert forall|a: int, b: int|
                    self.spec_get(a, b) == (if a == row && b == col {
                        Some(val)
                    } else {
                        old(self).spec_get(a, b)
                    }) by {
                    if 0 <= a < self.num_rows && 0 <= b < self.num_cols {
                        assert(0 <= a * self.num_cols + b < self.num_rows * self.num_cols)
                            by (nonlinear_arith)
                            requires
                                0 <= a < self.num_rows,
                                0 <= b < self.num_cols,
                        ;
                        if !(a == row && b == col) {
                            if a * self.num_cols + b == row * self.num_cols + col {
                                lemma_rowmajor_injective(
                                    a,
                                    b,
                                    row as int,
                                    col as int,
                                    self.num_cols as int,
                                );
                            }
                            assert(a * self.num_cols + b != row * self.num_cols + col);
                        }
                    }
                }
            }
            Ok(())
        } else {
            Err(())
        }
    }

    /// Prints the grid's contents to standard output.
    /// Relies on std::io::stdout and the writeln macro; presentation
    /// only, nothing is stated of it.
    #[verifier::external_body]
    pub fn display(&self) {
        let _ = writeln!(std::io::stdout(), "{:?}", self.elems);
    }
}

} // verus!
