//! The row-major grid that every stage of the pipeline shares.

use vstd::prelude::*;
use vstd::arithmetic::div_mod::lemma_fundamental_div_mod;
use vstd::arithmetic::div_mod::lemma_fundamental_div_mod_converse;
use vstd::arithmetic::div_mod::lemma_mod_bound;

verus! {

/// A `width` x `height` array of cells stored row by row in one allocation.
pub struct Grid<T> {
    pub width: usize,
    pub height: usize,
    pub cells: Vec<T>,
}

/// Flat index of the cell in column `x` of row `y`.
pub open spec fn cell_index(width: int, x: int, y: int) -> int {
    y * width + x
}

/// Dividing a flat index by the width recovers the row and the column.
pub proof fn lemma_cell_coords(width: int, x: int, y: int)
    requires
        0 <= x < width,
    ensures
        cell_index(width, x, y) / width == y,
        cell_index(width, x, y) % width == x,
{
    lemma_fundamental_div_mod_converse(y * width + x, width, y, x);
}

/// Every index of a `width` x `height` grid lies in exactly one row and column.
pub proof fn lemma_index_split(width: int, height: int, i: int)
    requires
        0 <= i < width * height,
        0 < width,
    ensures
        0 <= i / width < height,
        0 <= i % width < width,
        i == cell_index(width, i % width, i / width),
{
    lemma_fundamental_div_mod(i, width);
    lemma_mod_bound(i, width);
    let q = i / width;
    let r = i % width;
    assert(width * q == q * width) by (nonlinear_arith);
    assert(0 <= q < height) by (nonlinear_arith)
        requires
            i == q * width + r,
            0 <= r < width,
            0 <= i < width * height,
    ;
}

/// The cells of row `y` lie inside a `width` x `height` grid.
pub proof fn lemma_row_span(width: int, height: int, y: int)
    requires
        0 <= y < height,
        0 <= width,
    ensures
        0 <= y * width,
        y * width + width <= width * height,
{
    assert(0 <= y * width && y * width + width <= width * height) by (nonlinear_arith)
        requires
            0 <= y < height,
            0 <= width,
    ;
}

impl<T> Grid<T> {
    /// The grid holds exactly `width * height` cells.
    pub open spec fn wf(&self) -> bool {
        self.cells.len() == self.width * self.height
    }

    /// The cell in column `x` of row `y`.
    pub open spec fn at(&self, x: int, y: int) -> T {
        self.cells@[cell_index(self.width as int, x, y)]
    }

    /// Tags `cells` with its dimensions, or hands back nothing when the
    /// length is not `width * height`.
    pub fn new(width: usize, height: usize, cells: Vec<T>) -> (out: Option<Grid<T>>)
        ensures
            out is Some <==> cells@.len() == width * height,
            out is Some ==> out->0.wf() && out->0.width == width && out->0.height == height
                && out->0.cells@ == cells@,
    {
        let count: usize = cells.len();
        match width.checked_mul(height) {
            Some(n) => {
                if count == n {
                    Some(Grid { width, height, cells })
                } else {
                    None
                }
            },
            None => None,
        }
    }
}

impl<T: Copy> Grid<T> {
    /// Reads the cell in column `x` of row `y`; nothing outside the grid.
    pub fn get(&self, x: usize, y: usize) -> (out: Option<T>)
        requires
            self.wf(),
        ensures
            out == if x < self.width && y < self.height {
                Some(self.at(x as int, y as int))
            } else {
                None
            },
    {
        if x < self.width && y < self.height {
            proof {
                lemma_row_span(self.width as int, self.height as int, y as int);
            }
            Some(self.cells[y * self.width + x])
        } else {
            None
        }
    }
}

} // verus!
