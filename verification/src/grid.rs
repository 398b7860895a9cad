//! The fixed-size grid: bounds, indexing and the clipped 8-neighbourhood.

use vstd::prelude::*;
use vstd::arithmetic::div_mod::lemma_fundamental_div_mod_converse;
use vstd::arithmetic::div_mod::lemma_multiply_divide_lt;
use vstd::arithmetic::div_mod::lemma_fundamental_div_mod;
use crate::cell::Cell;

verus! {

/// A `width` by `height` surface of cells, stored row by row.
///
/// The dimensions are chosen at construction and never change. Every
/// coordinate pair inside them has exactly one cell.
#[derive(Debug)]
pub struct Grid {
    width: usize,
    height: usize,
    cells: Vec<Cell>,
}

/// The position of cell `(x, y)` in row-by-row storage of rows `width` long.
pub open spec fn flat(x: int, y: int, width: int) -> int {
    x + y * width
}

/// The offset of the `k`-th neighbour, for `k` from 0 to 7: the eight
/// positions of the 3 by 3 block around a cell, row by row, the centre left
/// out.
pub open spec fn neighbor_offset(k: int) -> (int, int) {
    let j = if k < 4 { k } else { k + 1 };
    (j % 3 - 1, j / 3 - 1)
}

/// Whether `(nx, ny)` is one of the eight positions around `(x, y)`.
pub open spec fn adjacent(x: int, y: int, nx: int, ny: int) -> bool {
    -1 <= nx - x <= 1 && -1 <= ny - y <= 1 && !(nx == x && ny == y)
}

/// How many of the coordinates `v - 1`, `v` and `v + 1` lie inside
/// `0..limit`, for a `v` that does.
pub open spec fn reach(v: int, limit: int) -> int {
    1 + if v > 0 {
        1int
    } else {
        0int
    } + if v + 1 < limit {
        1int
    } else {
        0int
    }
}

/// A position on a grid `width` wide and `height` high has its flat index inside
/// `width * height`, and the index gives the position back.
pub proof fn lemma_flat_in_range(x: int, y: int, width: int, height: int)
    requires
        0 <= x < width,
        0 <= y < height,
    ensures
        0 <= y * width <= flat(x, y, width) < width * height,
        flat(x, y, width) % width == x,
        flat(x, y, width) / width == y,
{
    assert(y * width + width <= height * width) by (nonlinear_arith)
        requires
            0 <= y < height,
            0 < width,
    ;
    assert(y * width >= 0) by (nonlinear_arith)
        requires
            0 <= y,
            0 < width,
    ;
    assert(height * width == width * height) by (nonlinear_arith);
    assert(y * width == width * y) by (nonlinear_arith);
    lemma_fundamental_div_mod_converse(flat(x, y, width), width, y, x);
}

/// A flat index inside `width * height` is the index of exactly one position.
pub proof fn lemma_flat_of_index(i: int, width: int, height: int)
    requires
        0 <= i < width * height,
        0 <= width,
        0 <= height,
    ensures
        0 < width,
        0 <= i % width < width,
        0 <= i / width < height,
        flat(i % width, i / width, width) == i,
{
    assert(width > 0) by (nonlinear_arith)
        requires
            0 <= i < width * height,
            0 <= width,
    ;
    lemma_multiply_divide_lt(i, width, height);
    lemma_fundamental_div_mod(i, width);
    assert(i / width >= 0) by (nonlinear_arith)
        requires
            0 <= i,
            0 < width,
    ;
    assert((i / width) * width == width * (i / width)) by (nonlinear_arith);
}

/// The coordinate `v + d - 1`, if it lies inside `0..limit`.
fn shifted(v: usize, d: usize, limit: usize) -> (r: Option<usize>)
    requires
        d <= 2,
        v < limit,
    ensures
        r.is_some() <==> 0 <= v + d - 1 < limit,
        r matches Some(n) ==> n == v + d - 1,
{
    if d == 0 {
        if v > 0 {
            Some(v - 1)
        } else {
            None
        }
    } else if d == 1 {
        Some(v)
    } else if v + 1 < limit {
        Some(v + 1)
    } else {
        None
    }
}

impl Grid {
    /// The number of columns.
    pub closed spec fn spec_width(self) -> int {
        self.width as int
    }

    /// The number of rows.
    pub closed spec fn spec_height(self) -> int {
        self.height as int
    }

    /// The cells, row by row.
    pub closed spec fn cells(self) -> Seq<Cell> {
        self.cells@
    }

    /// Every position has exactly one cell.
    pub open spec fn wf(self) -> bool {
        &&& 0 <= self.spec_width() <= usize::MAX
        &&& 0 <= self.spec_height() <= usize::MAX
        &&& self.cells().len() == self.spec_width() * self.spec_height()
        &&& self.cells().len() <= usize::MAX
    }

    /// Whether `(x, y)` lies on the grid.
    pub open spec fn in_bounds(self, x: int, y: int) -> bool {
        0 <= x < self.spec_width() && 0 <= y < self.spec_height()
    }

    /// The cell at column `x` of row `y`.
    pub open spec fn at(self, x: int, y: int) -> Cell {
        self.cells()[flat(x, y, self.spec_width())]
    }

    /// Two grids of the same size.
    pub open spec fn same_size(self, other: Grid) -> bool {
        self.spec_width() == other.spec_width() && self.spec_height() == other.spec_height()
    }

    /// The first `k` neighbours of `(x, y)` that lie on the grid, in the
    /// order of `neighbor_offset`. Positions off the grid are left out: the
    /// grid does not wrap around.
    pub open spec fn neighbors_upto(self, x: int, y: int, k: int) -> Seq<Cell>
        decreases k,
    {
        if k <= 0 {
            Seq::empty()
        } else {
            let rest = self.neighbors_upto(x, y, k - 1);
            let d = neighbor_offset(k - 1);
            if self.in_bounds(x + d.0, y + d.1) {
                rest.push(self.at(x + d.0, y + d.1))
            } else {
                rest
            }
        }
    }

    /// The cells around `(x, y)`: up to eight, fewer at an edge.
    pub open spec fn neighbors(self, x: int, y: int) -> Seq<Cell> {
        self.neighbors_upto(x, y, 8)
    }

    /// A grid of the given size with every cell `Empty`.
    pub fn new(width: usize, height: usize) -> (g: Grid)
        requires
            width * height <= usize::MAX,
        ensures
            g.wf(),
            g.spec_width() == width,
            g.spec_height() == height,
            forall|i: int| 0 <= i < g.cells().len() ==> g.cells()[i] == Cell::Empty,
    {
        let n: usize = width * height;
        let mut cells: Vec<Cell> = Vec::new();
        let mut i: usize = 0;
        while i < n
            invariant
                i <= n,
                cells@.len() == i,
                forall|j: int| 0 <= j < i ==> cells@[j] == Cell::Empty,
            decreases n - i,
        {
            cells.push(Cell::Empty);
            i += 1;
        }
        Grid { width, height, cells }
    }

    /// A grid over the given cells, row by row, if there is one cell for
    /// each position.
    pub fn from_cells(width: usize, height: usize, cells: Vec<Cell>) -> (g: Option<Grid>)
        ensures
            g.is_some() <==> cells@.len() == width * height,
            g matches Some(grid) ==> {
                &&& grid.wf()
                &&& grid.spec_width() == width
                &&& grid.spec_height() == height
                &&& grid.cells() == cells@
            },
    {
        let len: usize = cells.len();
        match width.checked_mul(height) {
            Some(n) => {
                if n == len {
                    Some(Grid { width, height, cells })
                } else {
                    None
                }
            },
            None => None,
        }
    }

    pub fn width(&self) -> (w: usize)
        ensures
            w == self.spec_width(),
    {
        self.width
    }

    pub fn height(&self) -> (h: usize)
        ensures
            h == self.spec_height(),
    {
        self.height
    }

    /// The number of cells.
    pub fn len(&self) -> (n: usize)
        ensures
            n == self.cells().len(),
    {
        self.cells.len()
    }

    /// The position whose flat index is `i`.
    pub fn position(&self, i: usize) -> (p: (usize, usize))
        requires
            self.wf(),
            i < self.cells().len(),
        ensures
            p.0 == (i as int) % self.spec_width(),
            p.1 == (i as int) / self.spec_width(),
            self.in_bounds(p.0 as int, p.1 as int),
            flat(p.0 as int, p.1 as int, self.spec_width()) == i,
    {
        proof {
            lemma_flat_of_index(i as int, self.spec_width(), self.spec_height());
        }
        (i % self.width, i / self.width)
    }

    /// Reads the cell at the given row and column. Never changes the grid.
    pub fn cell_at(&self, row: usize, col: usize) -> (c: Cell)
        requires
            self.wf(),
            self.in_bounds(col as int, row as int),
        ensures
            c == self.at(col as int, row as int),
    {
        proof {
            lemma_flat_in_range(col as int, row as int, self.spec_width(), self.spec_height());
        }
        self.cells[col + row * self.width]
    }

    /// Replaces the cell at the given row and column, and no other.
    pub fn set_cell(&mut self, row: usize, col: usize, cell: Cell)
        requires
            old(self).wf(),
            old(self).in_bounds(col as int, row as int),
        ensures
            final(self).wf(),
            final(self).same_size(*old(self)),
            final(self).cells() == old(self).cells().update(
                flat(col as int, row as int, old(self).spec_width()),
                cell,
            ),
            final(self).at(col as int, row as int) == cell,
    {
        proof {
            lemma_flat_in_range(col as int, row as int, self.spec_width(), self.spec_height());
        }
        let i: usize = col + row * self.width;
        self.cells.set(i, cell);
    }

    /// Leaves the given colour as heat in the cell whose flat index is that
    /// of column `x` in row `y`. A column past the end of the row runs on
    /// into the next row. What was there before is overwritten, not blended.
    pub fn deposit_heat(&mut self, x: usize, y: usize, rgb: (u8, u8, u8))
        requires
            old(self).wf(),
            flat(x as int, y as int, old(self).spec_width()) < old(self).cells().len(),
        ensures
            final(self).wf(),
            final(self).same_size(*old(self)),
            final(self).cells() == old(self).cells().update(
                flat(x as int, y as int, old(self).spec_width()),
                Cell::Heat(rgb.0, rgb.1, rgb.2),
            ),
    {
        proof {
            assert(0 <= y * self.width) by (nonlinear_arith)
                requires
                    0 <= y,
                    0 <= self.width,
            ;
        }
        let i: usize = x + y * self.width;
        self.cells.set(i, Cell::Heat(rgb.0, rgb.1, rgb.2));
    }

    /// There are never more neighbours than offsets.
    pub proof fn lemma_neighbors_len(self, x: int, y: int, k: int)
        requires
            0 <= k,
        ensures
            self.neighbors_upto(x, y, k).len() <= k,
        decreases k,
    {
        if k > 0 {
            self.lemma_neighbors_len(x, y, k - 1);
        }
    }

    /// A cell has one neighbour for each position of its 3 by 3 block that
    /// lies on the grid, itself left out: eight inside, five at an edge,
    /// three in a corner.
    pub proof fn lemma_neighbor_count(self, x: int, y: int)
        requires
            self.wf(),
            self.in_bounds(x, y),
        ensures
            self.neighbors(x, y).len() == reach(x, self.spec_width()) * reach(
                y,
                self.spec_height(),
            ) - 1,
    {
        reveal_with_fuel(Grid::neighbors_upto, 9);
        let across = reach(x, self.spec_width());
        let down = reach(y, self.spec_height());
        assert(across * down == if across == 1 {
            down
        } else if across == 2 {
            2 * down
        } else {
            3 * down
        }) by (nonlinear_arith)
            requires
                1 <= across <= 3,
        ;
    }

    /// Every neighbour of `(x, y)` is the cell at a position on the grid
    /// that is adjacent to `(x, y)`.
    pub proof fn lemma_neighbors_are_adjacent(self, x: int, y: int, i: int)
        requires
            0 <= i < self.neighbors(x, y).len(),
        ensures
            exists|nx: int, ny: int|
                adjacent(x, y, nx, ny) && self.in_bounds(nx, ny) && self.neighbors(x, y)[i]
                    == #[trigger] self.at(nx, ny),
    {
        self.lemma_neighbors_upto_adjacent(x, y, 8, i);
    }

    proof fn lemma_neighbors_upto_adjacent(self, x: int, y: int, k: int, i: int)
        requires
            0 <= k <= 8,
            0 <= i < self.neighbors_upto(x, y, k).len(),
        ensures
            exists|nx: int, ny: int|
                adjacent(x, y, nx, ny) && self.in_bounds(nx, ny) && self.neighbors_upto(x, y, k)[i]
                    == #[trigger] self.at(nx, ny),
        decreases k,
    {
        let d = neighbor_offset(k - 1);
        let rest = self.neighbors_upto(x, y, k - 1);
        if self.in_bounds(x + d.0, y + d.1) && i == rest.len() {
            assert(adjacent(x, y, x + d.0, y + d.1));
            assert(self.neighbors_upto(x, y, k)[i] == self.at(x + d.0, y + d.1));
        } else {
            self.lemma_neighbors_upto_adjacent(x, y, k - 1, i);
        }
    }

    /// The cell at every position on the grid that is adjacent to `(x, y)`
    /// is a neighbour of `(x, y)`.
    pub proof fn lemma_adjacent_is_neighbor(self, x: int, y: int, nx: int, ny: int)
        requires
            adjacent(x, y, nx, ny),
            self.in_bounds(nx, ny),
        ensures
            self.neighbors(x, y).contains(self.at(nx, ny)),
    {
        let j = (nx - x + 1) + 3 * (ny - y + 1);
        let k = if j < 4 { j } else { j - 1 };
        assert(neighbor_offset(k) == (nx - x, ny - y));
        let upto = self.neighbors_upto(x, y, k + 1);
        assert(upto.last() == self.at(nx, ny));
        self.lemma_neighbors_grow(x, y, k + 1, 8, upto.len() - 1);
    }

    proof fn lemma_neighbors_grow(self, x: int, y: int, k: int, m: int, i: int)
        requires
            0 <= k <= m,
            0 <= i < self.neighbors_upto(x, y, k).len(),
        ensures
            i < self.neighbors_upto(x, y, m).len(),
            self.neighbors_upto(x, y, m)[i] == self.neighbors_upto(x, y, k)[i],
        decreases m - k,
    {
        if k < m {
            self.lemma_neighbors_grow(x, y, k, m - 1, i);
        }
    }

    /// The cells adjacent to `(x, y)` horizontally, vertically or
    /// diagonally, without `(x, y)` itself and without positions off the
    /// grid.
    pub fn neighbors_of(&self, x: usize, y: usize) -> (ns: Vec<Cell>)
        requires
            self.wf(),
            self.in_bounds(x as int, y as int),
        ensures
            ns@ == self.neighbors(x as int, y as int),
            ns@.len() <= 8,
    {
        let mut ns: Vec<Cell> = Vec::new();
        let mut k: usize = 0;
        while k < 8
            invariant
                k <= 8,
                self.wf(),
                self.in_bounds(x as int, y as int),
                ns@ == self.neighbors_upto(x as int, y as int, k as int),
            decreases 8 - k,
        {
            let j: usize = if k < 4 { k } else { k + 1 };
            let sx = shifted(x, j % 3, self.width);
            let sy = shifted(y, j / 3, self.height);
            match (sx, sy) {
                (Some(nx), Some(ny)) => {
                    let c = self.cell_at(ny, nx);
                    ns.push(c);
                },
                _ => {},
            }
            k += 1;
        }
        proof {
            self.lemma_neighbors_len(x as int, y as int, 8);
        }
        ns
    }
}

} // verus!
