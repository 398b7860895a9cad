//! Cave generation by erosion: a cell follows the majority of its
//! neighbourhood, and keeps its state on a tie.

use vstd::prelude::*;
use crate::cell::Cell;
use crate::grid::Grid;
use crate::grid::lemma_flat_in_range;

verus! {

/// The number of empty neighbours at which a cell keeps its state.
pub const EROSION_THRESHOLD: usize = 4;

/// How many of the cells are `Empty`.
pub open spec fn count_empty(cells: Seq<Cell>) -> nat
    decreases cells.len(),
{
    if cells.len() == 0 {
        0
    } else {
        count_empty(cells.drop_last()) + if cells.last() == Cell::Empty {
            1nat
        } else {
            0nat
        }
    }
}

/// The next state of a cell that has `empty_neighbors` empty neighbours:
/// `Empty` above the threshold, `Wall` below it, unchanged at it.
pub open spec fn eroded(current: Cell, empty_neighbors: nat) -> Cell {
    if empty_neighbors > EROSION_THRESHOLD {
        Cell::Empty
    } else if empty_neighbors < EROSION_THRESHOLD {
        Cell::Wall
    } else {
        current
    }
}

/// Counts the `Empty` cells of a list.
pub fn count_empty_cells(cells: &Vec<Cell>) -> (n: usize)
    ensures
        n == count_empty(cells@),
{
    let mut n: usize = 0;
    let mut i: usize = 0;
    while i < cells.len()
        invariant
            i <= cells@.len(),
            n <= i,
            n == count_empty(cells@.take(i as int)),
        decreases cells@.len() - i,
    {
        proof {
            assert(cells@.take(i + 1).drop_last() =~= cells@.take(i as int));
        }
        if cells[i].is_empty() {
            n += 1;
        }
        i += 1;
    }
    proof {
        assert(cells@.take(cells@.len() as int) =~= cells@);
    }
    n
}

/// The erosion rule for one cell, given the cells around it.
pub fn erode_cell(current: Cell, neighbors: &Vec<Cell>) -> (next: Cell)
    ensures
        next == eroded(current, count_empty(neighbors@)),
{
    let n = count_empty_cells(neighbors);
    if n > EROSION_THRESHOLD {
        Cell::Empty
    } else if n < EROSION_THRESHOLD {
        Cell::Wall
    } else {
        current
    }
}

impl Grid {
    /// One full pass of erosion. The pass reads only this grid and writes
    /// only the grid it returns, so no cell sees a neighbour's new state.
    pub fn erode(&self) -> (next: Grid)
        requires
            self.wf(),
        ensures
            next.wf(),
            next.same_size(*self),
            forall|x: int, y: int|
                self.in_bounds(x, y) ==> #[trigger] next.at(x, y) == eroded(
                    self.at(x, y),
                    count_empty(self.neighbors(x, y)),
                ),
            forall|x: int, y: int|
                self.in_bounds(x, y) && count_empty(self.neighbors(x, y)) == EROSION_THRESHOLD
                    ==> #[trigger] next.at(x, y) == self.at(x, y),
    {
        let n: usize = self.len();
        let ghost w = self.spec_width();
        let mut cells: Vec<Cell> = Vec::new();
        let mut i: usize = 0;
        while i < n
            invariant
                self.wf(),
                n == self.cells().len(),
                w == self.spec_width(),
                i <= n,
                cells@.len() == i,
                forall|j: int|
                    0 <= j < i ==> #[trigger] cells@[j] == eroded(
                        self.cells()[j],
                        count_empty(self.neighbors(j % w, j / w)),
                    ),
            decreases n - i,
        {
            let (x, y) = self.position(i);
            let around = self.neighbors_of(x, y);
            let c = erode_cell(self.cell_at(y, x), &around);
            cells.push(c);
            i += 1;
        }
        let next = Grid::from_cells(self.width(), self.height(), cells).unwrap();
        proof {
            assert forall|x: int, y: int| self.in_bounds(x, y) implies #[trigger] next.at(x, y)
                == eroded(self.at(x, y), count_empty(self.neighbors(x, y))) by {
                lemma_flat_in_range(x, y, self.spec_width(), self.spec_height());
            }
        }
        next
    }
}

} // verus!
