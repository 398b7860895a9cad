//! Random seeding: each block of cells becomes `Wall` with the probability
//! given by the density, and `Empty` otherwise.

use vstd::prelude::*;
use vstd::arithmetic::div_mod::lemma_div_is_ordered;
use vstd::arithmetic::div_mod::lemma_fundamental_div_mod;
use vstd::arithmetic::div_mod::lemma_multiply_divide_lt;
use crate::cell::Cell;
use crate::chance::chance;
use crate::chance::PROBABILITY_SCALE;
use crate::grid::flat;
use crate::grid::lemma_flat_in_range;
use crate::grid::Grid;

verus! {

/// The number of blocks of side `zoom` that it takes to cover `len` cells.
/// The last block may stick out.
pub open spec fn blocks_across(len: int, zoom: int) -> int {
    len / zoom + if len % zoom == 0 {
        0int
    } else {
        1int
    }
}

/// The position, in row-by-row order, of the block that holds cell `(x, y)`
/// on a grid `width` cells wide.
pub open spec fn block_of(x: int, y: int, width: int, zoom: int) -> int {
    flat(x / zoom, y / zoom, blocks_across(width, zoom))
}

/// The cell that a seeding decision stands for.
pub open spec fn seed_cell(wall: bool) -> Cell {
    if wall {
        Cell::Wall
    } else {
        Cell::Empty
    }
}

/// Blocks cover the cells: there are no more blocks than cells, and every
/// cell lies in one of them.
pub proof fn lemma_blocks_cover(v: int, len: int, zoom: int)
    requires
        0 <= v < len,
        1 <= zoom,
    ensures
        0 <= v / zoom < blocks_across(len, zoom) <= len,
{
    lemma_fundamental_div_mod(len, zoom);
    lemma_fundamental_div_mod(v, zoom);
    let q = len / zoom;
    let r = len % zoom;
    assert(0 <= v / zoom) by (nonlinear_arith)
        requires
            0 <= v,
            1 <= zoom,
    ;
    assert(0 <= q) by (nonlinear_arith)
        requires
            q == len / zoom,
            0 <= len,
            1 <= zoom,
    ;
    assert(q <= zoom * q) by (nonlinear_arith)
        requires
            0 <= q,
            1 <= zoom,
    ;
    if r == 0 {
        lemma_multiply_divide_lt(v, zoom, q);
    } else {
        lemma_div_is_ordered(v, len, zoom);
    }
}

/// No more blocks than cells.
pub proof fn lemma_blocks_bounded(len: int, zoom: int)
    requires
        0 <= len,
        1 <= zoom,
    ensures
        0 <= blocks_across(len, zoom) <= len,
{
    if len > 0 {
        lemma_blocks_cover(0, len, zoom);
    }
}

/// Counts the blocks of side `zoom` that cover `len` cells.
pub fn block_count(len: usize, zoom: usize) -> (n: usize)
    requires
        1 <= zoom,
    ensures
        n == blocks_across(len as int, zoom as int),
        n <= len,
{
    proof {
        lemma_blocks_bounded(len as int, zoom as int);
    }
    if len % zoom == 0 {
        len / zoom
    } else {
        len / zoom + 1
    }
}

impl Grid {
    /// A grid of this size seeded from one decision for each block, the
    /// blocks taken row by row: a whole block is `Wall` where its decision
    /// is `true`, and `Empty` where it is `false`.
    pub fn seeded_from(&self, zoom: usize, walls: &Vec<bool>) -> (next: Grid)
        requires
            self.wf(),
            1 <= zoom,
            walls@.len() == blocks_across(self.spec_width(), zoom as int) * blocks_across(
                self.spec_height(),
                zoom as int,
            ),
        ensures
            next.wf(),
            next.same_size(*self),
            forall|x: int, y: int|
                self.in_bounds(x, y) ==> #[trigger] next.at(x, y) == seed_cell(
                    walls@[block_of(x, y, self.spec_width(), zoom as int)],
                ),
    {
        let n: usize = self.len();
        let across: usize = block_count(self.width(), zoom);
        let ghost w = self.spec_width();
        let ghost z = zoom as int;
        let mut cells: Vec<Cell> = Vec::new();
        let mut i: usize = 0;
        while i < n
            invariant
                self.wf(),
                n == self.cells().len(),
                w == self.spec_width(),
                z == zoom,
                1 <= z,
                across == blocks_across(w, z),
                walls@.len() == blocks_across(w, z) * blocks_across(self.spec_height(), z),
                i <= n,
                cells@.len() == i,
                forall|j: int|
                    0 <= j < i ==> #[trigger] cells@[j] == seed_cell(
                        walls@[block_of(j % w, j / w, w, z)],
                    ),
            decreases n - i,
        {
            let (x, y) = self.position(i);
            proof {
                lemma_blocks_cover(x as int, w, z);
                lemma_blocks_cover(y as int, self.spec_height(), z);
                lemma_flat_in_range(
                    x as int / z,
                    y as int / z,
                    blocks_across(w, z),
                    blocks_across(self.spec_height(), z),
                );
                assert(blocks_across(w, z) * blocks_across(self.spec_height(), z) <= w
                    * self.spec_height()) by (nonlinear_arith)
                    requires
                        0 <= blocks_across(w, z) <= w,
                        0 <= blocks_across(self.spec_height(), z) <= self.spec_height(),
                ;
            }
            let block: usize = x / zoom + (y / zoom) * across;
            cells.push(if walls[block] { Cell::Wall } else { Cell::Empty });
            i += 1;
        }
        let next = Grid::from_cells(self.width(), self.height(), cells).unwrap();
        proof {
            assert forall|x: int, y: int| self.in_bounds(x, y) implies #[trigger] next.at(x, y)
                == seed_cell(walls@[block_of(x, y, w, z)]) by {
                lemma_flat_in_range(x, y, self.spec_width(), self.spec_height());
            }
        }
        next
    }

    /// Replaces every cell by a fresh random seed of the same size, with
    /// one draw for each block of side `zoom`. A density of zero or less
    /// leaves no wall; a density of `PROBABILITY_SCALE` or more leaves
    /// nothing else.
    pub fn reseed(&mut self, density: i64, zoom: usize)
        requires
            old(self).wf(),
            1 <= zoom,
        ensures
            final(self).wf(),
            final(self).same_size(*old(self)),
            forall|x: int, y: int|
                final(self).in_bounds(x, y) ==> {
                    let c = #[trigger] final(self).at(x, y);
                    c == Cell::Wall || c == Cell::Empty
                },
            forall|x1: int, y1: int, x2: int, y2: int|
                final(self).in_bounds(x1, y1) && final(self).in_bounds(x2, y2) && x1 / (zoom as int)
                    == x2 / (zoom as int) && y1 / (zoom as int) == y2 / (zoom as int)
                    ==> #[trigger] final(self).at(x1, y1) == #[trigger] final(self).at(x2, y2),
            density <= 0 ==> forall|x: int, y: int|
                final(self).in_bounds(x, y) ==> #[trigger] final(self).at(x, y) == Cell::Empty,
            density >= PROBABILITY_SCALE ==> forall|x: int, y: int|
                final(self).in_bounds(x, y) ==> #[trigger] final(self).at(x, y) == Cell::Wall,
    {
        let across: usize = block_count(self.width(), zoom);
        let down: usize = block_count(self.height(), zoom);
        proof {
            assert(across * down <= self.spec_width() * self.spec_height()) by (nonlinear_arith)
                requires
                    0 <= across <= self.spec_width(),
                    0 <= down <= self.spec_height(),
            ;
        }
        let total: usize = across * down;
        let mut walls: Vec<bool> = Vec::new();
        let mut k: usize = 0;
        while k < total
            invariant
                k <= total,
                walls@.len() == k,
                density <= 0 ==> forall|j: int| 0 <= j < k ==> !#[trigger] walls@[j],
                density >= PROBABILITY_SCALE ==> forall|j: int| 0 <= j < k ==> #[trigger] walls@[j],
            decreases total - k,
        {
            let wall = chance(density);
            walls.push(wall);
            k += 1;
        }
        let next = self.seeded_from(zoom, &walls);
        proof {
            let w = self.spec_width();
            let h = self.spec_height();
            let z = zoom as int;
            assert forall|x: int, y: int| self.in_bounds(x, y) implies {
                let c = #[trigger] next.at(x, y);
                &&& c == Cell::Wall || c == Cell::Empty
                &&& density <= 0 ==> c == Cell::Empty
                &&& density >= PROBABILITY_SCALE ==> c == Cell::Wall
            } by {
                lemma_blocks_cover(x, w, z);
                lemma_blocks_cover(y, h, z);
                lemma_flat_in_range(x / z, y / z, blocks_across(w, z), blocks_across(h, z));
                let b = block_of(x, y, w, z);
                assert(next.at(x, y) == seed_cell(walls@[b]));
                assert(density <= 0 ==> !walls@[b]);
                assert(density >= PROBABILITY_SCALE ==> walls@[b]);
            }
        }
        *self = next;
    }
}

} // verus!
