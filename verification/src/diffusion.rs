//! Heat diffusion: every cell becomes the average of its 3 by 3 block.
//!
//! The sum is always divided by nine, also where part of the block lies off
//! the grid, so heat drains away at the edges and corners.

use vstd::prelude::*;
use crate::cell::Cell;
use crate::grid::Grid;
use crate::grid::lemma_flat_in_range;
use crate::grid::reach;

verus! {

/// The number of cells in a full 3 by 3 block, by which every sum is divided.
pub const BLOCK_CELLS: u32 = 9;

/// The heat of all the cells together, channel by channel.
pub open spec fn heat_sum(cells: Seq<Cell>) -> (int, int, int)
    decreases cells.len(),
{
    if cells.len() == 0 {
        (0, 0, 0)
    } else {
        let rest = heat_sum(cells.drop_last());
        let h = cells.last().heat();
        (rest.0 + h.0, rest.1 + h.1, rest.2 + h.2)
    }
}

/// The next state of a cell: its own heat plus that of the cells around it,
/// divided by nine and rounded down.
pub open spec fn diffused(current: Cell, neighbors: Seq<Cell>) -> Cell {
    let s = heat_sum(neighbors);
    let h = current.heat();
    Cell::Heat(
        ((h.0 + s.0) / (BLOCK_CELLS as int)) as u8,
        ((h.1 + s.1) / (BLOCK_CELLS as int)) as u8,
        ((h.2 + s.2) / (BLOCK_CELLS as int)) as u8,
    )
}

/// The heat that one cell contributes.
pub fn heat_of(cell: Cell) -> (h: (u8, u8, u8))
    ensures
        (h.0 as int, h.1 as int, h.2 as int) == cell.heat(),
{
    match cell {
        Cell::Heat(r, g, b) => (r, g, b),
        _ => (0, 0, 0),
    }
}

/// Adds up the heat of the cells of a neighbourhood.
pub fn sum_heat(cells: &Vec<Cell>) -> (s: (u32, u32, u32))
    requires
        cells@.len() <= 8,
    ensures
        (s.0 as int, s.1 as int, s.2 as int) == heat_sum(cells@),
        s.0 <= 255 * cells@.len(),
        s.1 <= 255 * cells@.len(),
        s.2 <= 255 * cells@.len(),
{
    let mut r: u32 = 0;
    let mut g: u32 = 0;
    let mut b: u32 = 0;
    let mut i: usize = 0;
    while i < cells.len()
        invariant
            i <= cells@.len() <= 8,
            (r as int, g as int, b as int) == heat_sum(cells@.take(i as int)),
            r <= 255 * i,
            g <= 255 * i,
            b <= 255 * i,
        decreases cells@.len() - i,
    {
        proof {
            assert(cells@.take(i + 1).drop_last() =~= cells@.take(i as int));
        }
        let h = heat_of(cells[i]);
        r += h.0 as u32;
        g += h.1 as u32;
        b += h.2 as u32;
        i += 1;
    }
    proof {
        assert(cells@.take(cells@.len() as int) =~= cells@);
    }
    (r, g, b)
}

/// The diffusion rule for one cell, given the cells around it.
pub fn diffuse_cell(current: Cell, neighbors: &Vec<Cell>) -> (next: Cell)
    requires
        neighbors@.len() <= 8,
    ensures
        next == diffused(current, neighbors@),
{
    let s = sum_heat(neighbors);
    let h = heat_of(current);
    let r: u32 = (h.0 as u32 + s.0) / BLOCK_CELLS;
    let g: u32 = (h.1 as u32 + s.1) / BLOCK_CELLS;
    let b: u32 = (h.2 as u32 + s.2) / BLOCK_CELLS;
    Cell::Heat(r as u8, g as u8, b as u8)
}

impl Grid {
    /// One full pass of diffusion. The pass reads only this grid and writes
    /// only the grid it returns.
    pub fn diffuse(&self) -> (next: Grid)
        requires
            self.wf(),
        ensures
            next.wf(),
            next.same_size(*self),
            forall|x: int, y: int|
                self.in_bounds(x, y) ==> #[trigger] next.at(x, y) == diffused(
                    self.at(x, y),
                    self.neighbors(x, y),
                ),
    {
        let n: usize = self.len();
        let ghost w = self.spec_width();
        let mut cells: Vec<Cell> = Vec::new();
        let mut i: usize = 0;
        while i < n
            invariant
                self.wf(),
                n == self.cells().len(),
                w == self.spec_width(),
                i <= n,
                cells@.len() == i,
                forall|j: int|
                    0 <= j < i ==> #[trigger] cells@[j] == diffused(
                        self.cells()[j],
                        self.neighbors(j % w, j / w),
                    ),
            decreases n - i,
        {
            let (x, y) = self.position(i);
            let around = self.neighbors_of(x, y);
            let c = diffuse_cell(self.cell_at(y, x), &around);
            cells.push(c);
            i += 1;
        }
        let next = Grid::from_cells(self.width(), self.height(), cells).unwrap();
        proof {
            assert forall|x: int, y: int| self.in_bounds(x, y) implies #[trigger] next.at(x, y)
                == diffused(self.at(x, y), self.neighbors(x, y)) by {
                lemma_flat_in_range(x, y, self.spec_width(), self.spec_height());
            }
        }
        next
    }

    /// Whether every cell of the grid is `Heat` of the one grey level `c`.
    pub open spec fn uniform_heat(self, c: u8) -> bool {
        forall|x: int, y: int| self.in_bounds(x, y) ==> #[trigger] self.at(x, y) == Cell::Heat(c, c, c)
    }

    /// On a grid of uniform heat, the heat around a cell is that level once
    /// for each neighbour that the cell has.
    pub proof fn lemma_uniform_sum(self, c: u8, x: int, y: int, k: int)
        requires
            self.uniform_heat(c),
            0 <= k,
        ensures
            heat_sum(self.neighbors_upto(x, y, k)) == {
                let total = self.neighbors_upto(x, y, k).len() * c;
                (total, total, total)
            },
        decreases k,
    {
        if k > 0 {
            self.lemma_uniform_sum(c, x, y, k - 1);
            let rest = self.neighbors_upto(x, y, k - 1);
            let all = self.neighbors_upto(x, y, k);
            if all.len() != rest.len() {
                assert(all.drop_last() =~= rest);
                assert((rest.len() + 1) * c == rest.len() * c + c) by (nonlinear_arith);
            }
        }
    }

    /// On a grid of uniform heat, a cell takes the level once for each cell
    /// of its 3 by 3 block that lies on the grid, divided by nine.
    pub proof fn lemma_uniform_heat_next(self, c: u8, x: int, y: int)
        requires
            self.wf(),
            self.uniform_heat(c),
            self.in_bounds(x, y),
        ensures
            diffused(self.at(x, y), self.neighbors(x, y)) == {
                let level = ((reach(x, self.spec_width()) * reach(y, self.spec_height()) * c)
                    / (BLOCK_CELLS as int)) as u8;
                Cell::Heat(level, level, level)
            },
    {
        self.lemma_uniform_sum(c, x, y, 8);
        self.lemma_neighbor_count(x, y);
        let n = self.neighbors(x, y).len() as int;
        assert(c + n * c == (n + 1) * c) by (nonlinear_arith);
    }

    /// A cell that has all its eight neighbours keeps the level of a
    /// uniformly heated grid.
    pub proof fn lemma_interior_keeps_uniform_heat(self, c: u8, x: int, y: int)
        requires
            self.wf(),
            self.uniform_heat(c),
            0 < x < self.spec_width() - 1,
            0 < y < self.spec_height() - 1,
        ensures
            diffused(self.at(x, y), self.neighbors(x, y)) == Cell::Heat(c, c, c),
    {
        self.lemma_uniform_sum(c, x, y, 8);
        reveal_with_fuel(Grid::neighbors_upto, 9);
        assert(self.neighbors(x, y).len() == 8);
        assert(self.in_bounds(x, y));
        assert(8 * c + c == 9 * c);
    }

    /// A corner cell of a uniformly heated grid cools down: part of its
    /// block lies off the grid, and the sum is still divided by nine.
    pub proof fn lemma_corner_loses_heat(self, c: u8, x: int, y: int)
        requires
            self.wf(),
            self.uniform_heat(c),
            self.in_bounds(x, y),
            x == 0 || x == self.spec_width() - 1,
            y == 0 || y == self.spec_height() - 1,
            c > 0,
        ensures
            diffused(self.at(x, y), self.neighbors(x, y)) matches Cell::Heat(r, g, b) && r == g
                && g == b && b < c,
    {
        self.lemma_uniform_sum(c, x, y, 8);
        reveal_with_fuel(Grid::neighbors_upto, 9);
        let n = self.neighbors(x, y).len();
        assert(n <= 3);
        assert(0 <= n * c <= 3 * c) by (nonlinear_arith)
            requires
                0 <= n <= 3,
                c > 0,
        ;
    }
}

} // verus!
