//! Point-of-interest lookup: from a requested coordinate to a grid reading.

use vstd::prelude::*;
use crate::grid::Grid;
use crate::grid::cell_index;
use crate::grid::lemma_row_span;
use vstd::arithmetic::div_mod::lemma_div_multiples_vanish;

verus! {

/// The grid coordinate that a requested coordinate stands for. One given in
/// output-image units is divided by the interpolation factor, rounding
/// toward zero; one given in grid units is taken as it is.
pub open spec fn grid_coord(c: int, scaled: bool, k: int) -> int {
    if scaled {
        c / k
    } else {
        c
    }
}

/// The flat index that a requested point resolves to.
pub open spec fn poi_index(width: int, x: int, y: int, scaled: bool, k: int) -> int {
    cell_index(width, grid_coord(x, scaled, k), grid_coord(y, scaled, k))
}

/// The reading at a requested point: the cell in its column and row, or
/// nothing when the column or the row lies outside the grid. A column past
/// the right edge never reads a cell of the next row.
pub open spec fn poi_reading<T>(grid: Grid<T>, x: int, y: int, scaled: bool, k: int) -> Option<T> {
    let gx = grid_coord(x, scaled, k);
    let gy = grid_coord(y, scaled, k);
    if gx < grid.width && gy < grid.height {
        Some(grid.at(gx, gy))
    } else {
        None
    }
}

/// The point that was asked for: both coordinates, or no point at all.
pub open spec fn requested_point(x: Option<usize>, y: Option<usize>) -> Option<(usize, usize)> {
    match (x, y) {
        (Some(px), Some(py)) => Some((px, py)),
        _ => None,
    }
}

/// Pairs the two coordinates; a single one alone asks for no point.
pub fn requested(x: Option<usize>, y: Option<usize>) -> (out: Option<(usize, usize)>)
    ensures
        out == requested_point(x, y),
{
    match (x, y) {
        (Some(px), Some(py)) => Some((px, py)),
        _ => None,
    }
}

/// Looks up the temperature at a requested point. `scaled` says that `x` and
/// `y` are in output-image units, already multiplied by the interpolation
/// factor `k`, which is then at least 1. A point whose column or row lies
/// outside the grid has no reading.
pub fn resolve_poi<T: Copy>(grid: &Grid<T>, x: usize, y: usize, scaled: bool, k: usize) -> (out:
    Option<T>)
    requires
        grid.wf(),
        scaled ==> k >= 1,
    ensures
        out == poi_reading(*grid, x as int, y as int, scaled, k as int),
{
    if scaled {
        grid.get(x / k, y / k)
    } else {
        grid.get(x, y)
    }
}

/// A point inside the grid reads the cell at the flat index that it
/// resolves to, which names a cell of the grid.
pub proof fn lemma_poi_inside<T>(grid: Grid<T>, x: int, y: int, scaled: bool, k: int)
    requires
        grid.wf(),
        0 <= grid_coord(x, scaled, k) < grid.width,
        0 <= grid_coord(y, scaled, k) < grid.height,
    ensures
        0 <= poi_index(grid.width as int, x, y, scaled, k) < grid.cells@.len(),
        poi_reading(grid, x, y, scaled, k) == Some(
            grid.cells@[poi_index(grid.width as int, x, y, scaled, k)],
        ),
{
    lemma_row_span(grid.width as int, grid.height as int, grid_coord(y, scaled, k));
}

/// A point whose column or row lies outside the grid has no reading.
pub proof fn lemma_poi_outside<T>(grid: Grid<T>, x: int, y: int, scaled: bool, k: int)
    requires
        grid_coord(x, scaled, k) >= grid.width || grid_coord(y, scaled, k) >= grid.height,
    ensures
        poi_reading(grid, x, y, scaled, k) is None,
{
}

/// A point given in grid units and the same point given in output-image
/// units, each coordinate multiplied by the factor, resolve to the same cell.
pub proof fn lemma_scaling_agrees(width: int, x: int, y: int, k: int)
    requires
        k >= 1,
    ensures
        poi_index(width, x * k, y * k, true, k) == poi_index(width, x, y, false, k),
{
    lemma_div_multiples_vanish(x, k);
    lemma_div_multiples_vanish(y, k);
    assert(x * k == k * x && y * k == k * y) by (nonlinear_arith);
}

} // verus!
