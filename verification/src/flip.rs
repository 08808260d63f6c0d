//! Horizontal and vertical flips: pure permutations of a grid's cells.

use vstd::prelude::*;
use vstd::seq_lib::lemma_multiset_commutative;
use vstd::seq_lib::to_multiset_contains;
use vstd::seq_lib::to_multiset_update;
use crate::grid::Grid;
use crate::grid::cell_index;
use crate::grid::lemma_cell_coords;
use crate::grid::lemma_index_split;
use crate::grid::lemma_row_span;

verus! {

/// Where the cell that a horizontal flip moves to index `i` comes from: the
/// same row, the mirrored column.
pub open spec fn hflip_source(width: int, i: int) -> int {
    cell_index(width, width - 1 - i % width, i / width)
}

/// Where the cell that a vertical flip moves to index `i` comes from: the
/// mirrored row, the same column.
pub open spec fn vflip_source(width: int, height: int, i: int) -> int {
    cell_index(width, i % width, height - 1 - i / width)
}

/// The cells of a grid of the given width after a horizontal flip.
pub open spec fn hflip_cells<T>(cells: Seq<T>, width: int) -> Seq<T> {
    Seq::new(cells.len(), |i: int| cells[hflip_source(width, i)])
}

/// The cells of a `width` x `height` grid after a vertical flip.
pub open spec fn vflip_cells<T>(cells: Seq<T>, width: int, height: int) -> Seq<T> {
    Seq::new(cells.len(), |i: int| cells[vflip_source(width, height, i)])
}

/// Exchanging two cells keeps the multiset of values.
proof fn lemma_swap_keeps_multiset<T>(s: Seq<T>, i: int, j: int)
    requires
        0 <= i < s.len(),
        0 <= j < s.len(),
    ensures
        s.update(i, s[j]).update(j, s[i]).to_multiset() == s.to_multiset(),
{
    broadcast use vstd::multiset::group_multiset_axioms;

    let s1 = s.update(i, s[j]);
    to_multiset_update(s, i, s[j]);
    to_multiset_update(s1, j, s[i]);
    assert(s1[j] == s[j]);
    assert(s.contains(s[i]) && s.contains(s[j]));
    to_multiset_contains(s, s[i]);
    to_multiset_contains(s, s[j]);
    assert(s.to_multiset().insert(s[j]).remove(s[i]).insert(s[i]).remove(s[j])
        =~= s.to_multiset());
}

/// Reverses the `len` cells that start at `start`.
fn reverse_run<T: Copy>(cells: &mut Vec<T>, start: usize, len: usize)
    requires
        start + len <= old(cells)@.len(),
    ensures
        final(cells)@.len() == old(cells)@.len(),
        final(cells)@.to_multiset() == old(cells)@.to_multiset(),
        forall|j: int|
            0 <= j < old(cells)@.len() ==> #[trigger] final(cells)@[j] == if start <= j < start
                + len {
                old(cells)@[2 * start + len - 1 - j]
            } else {
                old(cells)@[j]
            },
{
    let ghost before = cells@;
    let total: usize = cells.len();
    let half: usize = len / 2;
    let mut x: usize = 0;
    while x < half
        invariant
            half == len / 2,
            before.len() == total,
            x <= half,
            start + len <= before.len(),
            cells@.len() == before.len(),
            cells@.to_multiset() == before.to_multiset(),
            forall|j: int|
                0 <= j < before.len() ==> #[trigger] cells@[j] == if start <= j < start + x
                    || start + len - x <= j < start + len {
                    before[2 * start + len - 1 - j]
                } else {
                    before[j]
                },
        decreases half - x,
    {
        let left: usize = start + x;
        let right: usize = start + (len - 1 - x);
        let a = cells[left];
        let b = cells[right];
        proof {
            lemma_swap_keeps_multiset(cells@, left as int, right as int);
        }
        cells.set(left, b);
        cells.set(right, a);
        x = x + 1;
    }
}

/// Exchanges the `len` cells that start at `a` with those that start at `b`.
fn swap_runs<T: Copy>(cells: &mut Vec<T>, a: usize, b: usize, len: usize)
    requires
        a + len <= b,
        b + len <= old(cells)@.len(),
    ensures
        final(cells)@.len() == old(cells)@.len(),
        final(cells)@.to_multiset() == old(cells)@.to_multiset(),
        forall|j: int|
            0 <= j < old(cells)@.len() ==> #[trigger] final(cells)@[j] == if a <= j < a + len {
                old(cells)@[j - a + b]
            } else if b <= j < b + len {
                old(cells)@[j - b + a]
            } else {
                old(cells)@[j]
            },
{
    let ghost before = cells@;
    let total: usize = cells.len();
    let mut x: usize = 0;
    while x < len
        invariant
            x <= len,
            before.len() == total,
            a + len <= b,
            b + len <= before.len(),
            cells@.len() == before.len(),
            cells@.to_multiset() == before.to_multiset(),
            forall|j: int|
                0 <= j < before.len() ==> #[trigger] cells@[j] == if a <= j < a + x {
                    before[j - a + b]
                } else if b <= j < b + x {
                    before[j - b + a]
                } else {
                    before[j]
                },
        decreases len - x,
    {
        let upper = cells[a + x];
        let lower = cells[b + x];
        proof {
            lemma_swap_keeps_multiset(cells@, a + x, b + x);
        }
        cells.set(a + x, lower);
        cells.set(b + x, upper);
        x = x + 1;
    }
}

/// Mirrors every row: the cell in column `x` trades places with the one in
/// column `width - 1 - x`. No value changes, only its position.
pub fn horizontal_flip<T: Copy>(grid: &mut Grid<T>)
    requires
        old(grid).wf(),
    ensures
        final(grid).wf(),
        final(grid).width == old(grid).width,
        final(grid).height == old(grid).height,
        final(grid).cells@ == hflip_cells(old(grid).cells@, old(grid).width as int),
        final(grid).cells@.to_multiset() == old(grid).cells@.to_multiset(),
{
    let ghost before = grid.cells@;
    let width: usize = grid.width;
    let height: usize = grid.height;
    let total: usize = grid.cells.len();
    let mut y: usize = 0;
    let mut row_start: usize = 0;
    while y < height
        invariant
            y <= height,
            before.len() == total,
            grid.width == width,
            grid.height == height,
            before.len() == width * height,
            grid.cells@.len() == before.len(),
            grid.cells@.to_multiset() == before.to_multiset(),
            row_start == y * width,
            forall|j: int|
                0 <= j < before.len() ==> #[trigger] grid.cells@[j] == if j < row_start {
                    before[hflip_source(width as int, j)]
                } else {
                    before[j]
                },
        decreases height - y,
    {
        proof {
            lemma_row_span(width as int, height as int, y as int);
            assert((y + 1) * width == y * width + width) by (nonlinear_arith);
        }
        let ghost row = grid.cells@;
        reverse_run(&mut grid.cells, row_start, width);
        proof {
            assert forall|j: int| 0 <= j < before.len() implies #[trigger] grid.cells@[j] == if j
                < row_start + width {
                before[hflip_source(width as int, j)]
            } else {
                before[j]
            } by {
                if row_start <= j < row_start + width {
                    lemma_cell_coords(width as int, j - row_start, y as int);
                    assert(row[2 * row_start + width - 1 - j] == before[2 * row_start + width - 1
                        - j]);
                }
            }
        }
        row_start = row_start + width;
        y = y + 1;
    }
    proof {
        assert(row_start == width * height) by (nonlinear_arith)
            requires
                row_start == y * width,
                y == height,
        ;
        assert(grid.cells@ =~= hflip_cells(before, width as int));
    }
}

/// Mirrors every column: the cell in row `y` trades places with the one in
/// row `height - 1 - y`. No value changes, only its position.
pub fn vertical_flip<T: Copy>(grid: &mut Grid<T>)
    requires
        old(grid).wf(),
    ensures
        final(grid).wf(),
        final(grid).width == old(grid).width,
        final(grid).height == old(grid).height,
        final(grid).cells@ == vflip_cells(
            old(grid).cells@,
            old(grid).width as int,
            old(grid).height as int,
        ),
        final(grid).cells@.to_multiset() == old(grid).cells@.to_multiset(),
{
    let ghost before = grid.cells@;
    let width: usize = grid.width;
    let height: usize = grid.height;
    let half: usize = height / 2;
    let mut y: usize = 0;
    let mut top: usize = 0;
    let mut bottom_end: usize = grid.cells.len();
    proof {
        assert(width * height == (height - 0) * width) by (nonlinear_arith);
    }
    while y < half
        invariant
            half == height / 2,
            y <= half,
            grid.width == width,
            grid.height == height,
            before.len() == width * height,
            grid.cells@.len() == before.len(),
            grid.cells@.to_multiset() == before.to_multiset(),
            top == y * width,
            bottom_end == (height - y) * width,
            forall|j: int|
                0 <= j < before.len() ==> #[trigger] grid.cells@[j] == if j < top || bottom_end
                    <= j {
                    before[vflip_source(width as int, height as int, j)]
                } else {
                    before[j]
                },
        decreases half - y,
    {
        proof {
            lemma_row_span(width as int, height as int, y as int);
            lemma_row_span(width as int, height as int, height - 1 - y);
            assert((y + 1) * width == y * width + width) by (nonlinear_arith);
            assert((height - y) * width == (height - 1 - y) * width + width) by (nonlinear_arith);
            assert(y * width + width <= (height - 1 - y) * width) by (nonlinear_arith)
                requires
                    y + 1 <= height - 1 - y,
                    0 <= width,
            ;
        }
        let bottom: usize = bottom_end - width;
        let ghost rows = grid.cells@;
        swap_runs(&mut grid.cells, top, bottom, width);
        proof {
            assert forall|j: int| 0 <= j < before.len() implies #[trigger] grid.cells@[j] == if j
                < top + width || bottom <= j {
                before[vflip_source(width as int, height as int, j)]
            } else {
                before[j]
            } by {
                if top <= j < top + width {
                    lemma_cell_coords(width as int, j - top, y as int);
                    assert(rows[j - top + bottom] == before[j - top + bottom]);
                } else if bottom <= j < bottom + width {
                    lemma_cell_coords(width as int, j - bottom, height - 1 - y);
                    assert(rows[j - bottom + top] == before[j - bottom + top]);
                }
            }
        }
        top = top + width;
        bottom_end = bottom;
        y = y + 1;
    }
    proof {
        assert forall|j: int| 0 <= j < before.len() implies #[trigger] grid.cells@[j]
            == before[vflip_source(width as int, height as int, j)] by {
            if top <= j < bottom_end {
                assert(height - y == y + 1 && top + width == bottom_end) by (nonlinear_arith)
                    requires
                        top == y * width,
                        bottom_end == (height - y) * width,
                        top < bottom_end,
                        y == height / 2,
                        0 <= width,
                ;
                lemma_cell_coords(width as int, j - top, y as int);
            }
        }
        assert(grid.cells@ =~= vflip_cells(before, width as int, height as int));
    }
}

/// The source of a horizontally flipped cell lies in the same row, in the
/// mirrored column, and inside the grid.
pub proof fn lemma_hflip_source(width: int, height: int, i: int)
    requires
        0 < width,
        0 <= i < width * height,
    ensures
        0 <= hflip_source(width, i) < width * height,
        hflip_source(width, i) / width == i / width,
        hflip_source(width, i) % width == width - 1 - i % width,
{
    lemma_index_split(width, height, i);
    lemma_cell_coords(width, width - 1 - i % width, i / width);
    lemma_row_span(width, height, i / width);
}

/// The source of a vertically flipped cell lies in the mirrored row, in the
/// same column, and inside the grid.
pub proof fn lemma_vflip_source(width: int, height: int, i: int)
    requires
        0 < width,
        0 <= i < width * height,
    ensures
        0 <= vflip_source(width, height, i) < width * height,
        vflip_source(width, height, i) / width == height - 1 - i / width,
        vflip_source(width, height, i) % width == i % width,
{
    lemma_index_split(width, height, i);
    lemma_cell_coords(width, i % width, height - 1 - i / width);
    lemma_row_span(width, height, height - 1 - i / width);
}

/// A grid of width zero holds no cell.
proof fn lemma_no_width_no_cells(width: int, height: int)
    requires
        width == 0,
    ensures
        width * height == 0,
{
    assert(width * height == 0) by (nonlinear_arith)
        requires
            width == 0,
    ;
}

/// After a horizontal flip the cell in column `x` of row `y` holds what the
/// cell in column `width - 1 - x` of that row held.
pub proof fn lemma_hflip_cell<T>(cells: Seq<T>, width: int, height: int, x: int, y: int)
    requires
        cells.len() == width * height,
        0 <= x < width,
        0 <= y < height,
    ensures
        0 <= cell_index(width, x, y) < cells.len(),
        hflip_cells(cells, width)[cell_index(width, x, y)] == cells[cell_index(
            width,
            width - 1 - x,
            y,
        )],
{
    lemma_row_span(width, height, y);
    lemma_cell_coords(width, x, y);
}

/// After a vertical flip the cell in column `x` of row `y` holds what the
/// cell in that column of row `height - 1 - y` held.
pub proof fn lemma_vflip_cell<T>(cells: Seq<T>, width: int, height: int, x: int, y: int)
    requires
        cells.len() == width * height,
        0 <= x < width,
        0 <= y < height,
    ensures
        0 <= cell_index(width, x, y) < cells.len(),
        vflip_cells(cells, width, height)[cell_index(width, x, y)] == cells[cell_index(
            width,
            x,
            height - 1 - y,
        )],
{
    lemma_row_span(width, height, y);
    lemma_cell_coords(width, x, y);
}

/// Flipping horizontally twice gives the grid back.
pub proof fn lemma_hflip_involution<T>(cells: Seq<T>, width: int, height: int)
    requires
        0 <= width,
        cells.len() == width * height,
    ensures
        hflip_cells(hflip_cells(cells, width), width) == cells,
{
    let once = hflip_cells(cells, width);
    let twice = hflip_cells(once, width);
    if width == 0 {
        lemma_no_width_no_cells(width, height);
    }
    assert forall|i: int| 0 <= i < cells.len() implies twice[i] == cells[i] by {
        let j = hflip_source(width, i);
        lemma_hflip_source(width, height, i);
        lemma_index_split(width, height, i);
        assert(hflip_source(width, j) == i);
    }
    assert(twice =~= cells);
}

/// Flipping vertically twice gives the grid back.
pub proof fn lemma_vflip_involution<T>(cells: Seq<T>, width: int, height: int)
    requires
        0 <= width,
        cells.len() == width * height,
    ensures
        vflip_cells(vflip_cells(cells, width, height), width, height) == cells,
{
    let once = vflip_cells(cells, width, height);
    let twice = vflip_cells(once, width, height);
    if width == 0 {
        lemma_no_width_no_cells(width, height);
    }
    assert forall|i: int| 0 <= i < cells.len() implies twice[i] == cells[i] by {
        let j = vflip_source(width, height, i);
        lemma_vflip_source(width, height, i);
        lemma_index_split(width, height, i);
        assert(vflip_source(width, height, j) == i);
    }
    assert(twice =~= cells);
}

/// A horizontal flip followed by a vertical one gives the same grid as the
/// two in the other order.
pub proof fn lemma_flips_commute<T>(cells: Seq<T>, width: int, height: int)
    requires
        0 <= width,
        cells.len() == width * height,
    ensures
        vflip_cells(hflip_cells(cells, width), width, height) == hflip_cells(
            vflip_cells(cells, width, height),
            width,
        ),
{
    let hv = vflip_cells(hflip_cells(cells, width), width, height);
    let vh = hflip_cells(vflip_cells(cells, width, height), width);
    if width == 0 {
        lemma_no_width_no_cells(width, height);
    }
    assert forall|i: int| 0 <= i < cells.len() implies hv[i] == vh[i] by {
        lemma_hflip_source(width, height, i);
        lemma_vflip_source(width, height, i);
        let v = vflip_source(width, height, i);
        let h = hflip_source(width, i);
        assert(hflip_source(width, v) == vflip_source(width, height, h));
    }
    assert(hv =~= vh);
}

/// A horizontal flip keeps which values the grid holds and how often each
/// occurs: it flips the rows above the last one and reverses the last.
proof fn lemma_hflip_keeps_multiset<T>(cells: Seq<T>, width: int, height: int)
    requires
        0 <= width,
        0 <= height,
        cells.len() == width * height,
    ensures
        hflip_cells(cells, width).to_multiset() == cells.to_multiset(),
    decreases height,
{
    let flipped = hflip_cells(cells, width);
    if width == 0 || height == 0 {
        assert(width * height == 0) by (nonlinear_arith)
            requires
                width == 0 || height == 0,
        ;
        assert(flipped =~= cells);
    } else {
        let n = (height - 1) * width;
        lemma_row_span(width, height, height - 1);
        assert(n == width * (height - 1) && n + width == width * height) by (nonlinear_arith)
            requires
                n == (height - 1) * width,
        ;
        let head = cells.subrange(0, n);
        let last = cells.subrange(n, cells.len() as int);
        let joined = hflip_cells(head, width) + last.reverse();
        lemma_hflip_keeps_multiset(head, width, height - 1);
        last.lemma_reverse_to_multiset();
        assert(cells =~= head + last);
        assert forall|i: int| 0 <= i < cells.len() implies flipped[i] == joined[i] by {
            lemma_hflip_source(width, height, i);
            if i < n {
                lemma_hflip_source(width, height - 1, i);
            } else {
                lemma_cell_coords(width, i - n, height - 1);
            }
        }
        assert(flipped =~= joined);
        lemma_multiset_commutative(head, last);
        lemma_multiset_commutative(hflip_cells(head, width), last.reverse());
    }
}

/// A vertical flip is a horizontal flip read backwards.
proof fn lemma_vflip_is_reversed_hflip<T>(cells: Seq<T>, width: int, height: int)
    requires
        0 <= width,
        cells.len() == width * height,
    ensures
        vflip_cells(cells, width, height) == hflip_cells(cells, width).reverse(),
{
    let rows = hflip_cells(cells, width);
    let turned = vflip_cells(cells, width, height);
    let n = cells.len() as int;
    if width == 0 {
        lemma_no_width_no_cells(width, height);
    }
    assert forall|i: int| 0 <= i < n implies turned[i] == rows.reverse()[i] by {
        lemma_index_split(width, height, i);
        let x = i % width;
        let y = i / width;
        assert(n - 1 - i == cell_index(width, width - 1 - x, height - 1 - y)) by (nonlinear_arith)
            requires
                n == width * height,
                i == y * width + x,
        ;
        lemma_cell_coords(width, width - 1 - x, height - 1 - y);
    }
    assert(turned =~= rows.reverse());
}

/// Neither flip changes which values the grid holds, nor how often each
/// occurs; so neither changes the smallest or the largest of them.
pub proof fn lemma_flips_keep_values<T>(cells: Seq<T>, width: int, height: int)
    requires
        0 <= width,
        0 <= height,
        cells.len() == width * height,
    ensures
        hflip_cells(cells, width).to_multiset() == cells.to_multiset(),
        vflip_cells(cells, width, height).to_multiset() == cells.to_multiset(),
{
    lemma_hflip_keeps_multiset(cells, width, height);
    lemma_vflip_is_reversed_hflip(cells, width, height);
    hflip_cells(cells, width).lemma_reverse_to_multiset();
}

} // verus!
