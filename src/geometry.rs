//! Plain value types: positions on the field.
use vstd::prelude::*;

verus! {

/// A position on the field, in whole cells.
#[derive(Debug, Clone, Copy, PartialEq, Eq, Structural)]
pub struct Coordinate {
    pub x: i32,
    pub y: i32,
}

impl Coordinate {
    /// Moves one cell along the x axis.
    pub fn inc_x(&mut self)
        requires
            old(self).x < i32::MAX,
        ensures
            final(self).x == old(self).x + 1,
            final(self).y == old(self).y,
    {
        self.x = self.x + 1;
    }
}

/// A rectangular mission area: `rows` by `cols` cells, each holding a
/// non-negative cell identifier, stored row by row.
#[derive(Debug, Clone)]
pub struct MissionArea {
    pub rows: usize,
    pub cols: usize,
    pub cells: Vec<u32>,
}

impl MissionArea {
    /// The cell count matches the dimensions.
    pub open spec fn wf(&self) -> bool {
        self.cells@.len() == self.rows * self.cols
    }

    /// The identifier at row `r`, column `c`.
    pub open spec fn cell_at(&self, r: int, c: int) -> u32 {
        self.cells@[r * self.cols + c]
    }

    /// An area of the given dimensions with every cell zero.
    pub fn zeroed(rows: usize, cols: usize) -> (r: MissionArea)
        requires
            rows * cols <= usize::MAX,
        ensures
            r.wf(),
            r.rows == rows,
            r.cols == cols,
            forall|i: int| 0 <= i < r.cells@.len() ==> r.cells@[i] == 0,
    {
        let n: usize = rows * cols;
        let mut cells: Vec<u32> = Vec::new();
        while cells.len() < n
            invariant
                cells@.len() <= n,
                forall|i: int| 0 <= i < cells@.len() ==> cells@[i] == 0,
            decreases n - cells@.len(),
        {
            cells.push(0);
        }
        MissionArea { rows, cols, cells }
    }

    /// Builds an area from its cells, row by row; `None` when the number of
    /// cells does not match the dimensions.
    pub fn from_cells(rows: usize, cols: usize, cells: Vec<u32>) -> (r: Option<MissionArea>)
        ensures
            r.is_some() <==> cells@.len() == rows * cols,
            r.is_some() ==> r.unwrap().wf() && r.unwrap().rows == rows && r.unwrap().cols == cols
                && r.unwrap().cells@ == cells@,
    {
        if rows == 0 || cols == 0 {
            proof {
                assert(rows * cols == 0) by (nonlinear_arith)
                    requires
                        rows == 0 || cols == 0,
                ;
            }
            if cells.len() == 0 {
                return Some(MissionArea { rows, cols, cells });
            }
            return None;
        }
        if cells.len() / cols != rows || cells.len() % cols != 0 {
            proof {
                if cells@.len() == rows * cols {
                    assert((rows * cols) / cols as int == rows as int && (rows * cols) % cols as int == 0)
                        by (nonlinear_arith)
                        requires
                            cols > 0,
                    ;
                }
            }
            return None;
        }
        proof {
            let n = cells@.len() as int;
            assert(n == (n / cols as int) * cols + n % cols as int) by (nonlinear_arith)
                requires
                    cols > 0,
            ;
            assert(n == rows * cols);
        }
        Some(MissionArea { rows, cols, cells })
    }

    /// The identifier at row `r`, column `c`.
    pub fn cell(&self, r: usize, c: usize) -> (v: u32)
        requires
            self.wf(),
            r < self.rows,
            c < self.cols,
        ensures
            v == self.cell_at(r as int, c as int),
    {
        proof {
            assert(r * self.cols + c < self.rows * self.cols) by (nonlinear_arith)
                requires
                    r < self.rows,
                    c < self.cols,
            ;
            assert(r * self.cols + c < self.cells@.len());
        }
        let n: usize = self.cells.len();
        assert(r * self.cols + c < n);
        let base: usize = r * self.cols;
        self.cells[base + c]
    }
}

} // verus!
