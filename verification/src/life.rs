//! A stochastic variant of Life in which a new cell inherits the colour of
//! a living neighbour, slightly mutated. Walls never change.
//!
//! The rule has a branch for death by crowding or loneliness. That branch
//! leaves the cell as it is: living cells do not die.

use vstd::prelude::*;
use crate::cell::Cell;
use crate::chance::chance;
use crate::chance::random_index;
use crate::chance::PROBABILITY_SCALE;
use crate::grid::Grid;
use crate::grid::lemma_flat_in_range;
use crate::mutation::color_reachable;
use crate::mutation::color_view;
use crate::mutation::lemma_mutation_reachable;
use crate::mutation::mutate_color;
use crate::mutation::mutated_color;
use crate::mutation::random_offsets;
use crate::mutation::valid_offset;

verus! {

/// The rate, in millionths, at which a crowded or lonely cell is spared.
pub const SURVIVAL_RATE: i64 = 990_000;

/// The rate, in millionths, at which a cell with a living neighbour
/// attempts a spawn.
pub const SPAWN_RATE: i64 = 100_000;

/// The most living neighbours that a cell is at ease with.
pub const CROWDED_ABOVE: usize = 5;

/// The fewest living neighbours that a cell is at ease with.
pub const LONELY_BELOW: usize = 3;

/// The `Life` cells among the given cells, in their order.
pub open spec fn life_cells(cells: Seq<Cell>) -> Seq<Cell>
    decreases cells.len(),
{
    if cells.len() == 0 {
        Seq::empty()
    } else if cells.last() is Life {
        life_cells(cells.drop_last()).push(cells.last())
    } else {
        life_cells(cells.drop_last())
    }
}

/// Whether a cell with `living` living neighbours is under threat of death.
pub open spec fn threatened(living: int) -> bool {
    living > CROWDED_ABOVE || living < LONELY_BELOW
}

/// Whether a cell takes a new colour from a neighbour: it must not fall in
/// the death branch, must have a living neighbour, and must have drawn a
/// spawn.
pub open spec fn spawns(living: int, will_survive: bool, will_spawn: bool) -> bool {
    !(threatened(living) && !will_survive) && living > 0 && will_spawn
}

/// The colour of a `Life` cell as three integers.
pub open spec fn life_color(cell: Cell) -> (int, int, int) {
    match cell {
        Cell::Life(r, g, b) => (r as int, g as int, b as int),
        _ => (0, 0, 0),
    }
}

/// The cell that spawns from the living cell `source` with the given
/// steps on its colour.
pub open spec fn spawned_from(source: Cell, offsets: (int, int, int)) -> Cell {
    let c = mutated_color(life_color(source), offsets);
    Cell::Life(c.0 as i16, c.1 as i16, c.2 as i16)
}

/// The next state of a cell once every draw is made: `pick` is the position
/// drawn in the list of living neighbours, `offsets` the steps drawn for
/// the colour.
pub open spec fn life_next(
    current: Cell,
    neighbors: Seq<Cell>,
    will_survive: bool,
    will_spawn: bool,
    pick: int,
    offsets: (int, int, int),
) -> Cell {
    let living = life_cells(neighbors);
    if current != Cell::Wall && spawns(living.len() as int, will_survive, will_spawn) {
        spawned_from(living[pick], offsets)
    } else {
        current
    }
}

/// Whether `next` is a living cell whose colour some mutation makes of the
/// colour of the living cell `source`.
pub open spec fn spawn_of(source: Cell, next: Cell) -> bool {
    source is Life && next is Life && color_reachable(life_color(source), life_color(next))
}

/// Whether `next` can follow `current` in one step at the given rates,
/// whatever is drawn: the cell is kept where a spawn is not certain, and
/// spawns from one of its living neighbours where a spawn is possible.
pub open spec fn life_outcome(
    current: Cell,
    neighbors: Seq<Cell>,
    survival_rate: int,
    spawn_rate: int,
    next: Cell,
) -> bool {
    let living = life_cells(neighbors);
    let n = living.len() as int;
    let can_keep = current == Cell::Wall || n == 0 || spawn_rate < PROBABILITY_SCALE || (threatened(
        n,
    ) && survival_rate < PROBABILITY_SCALE);
    let can_spawn = current != Cell::Wall && n > 0 && spawn_rate > 0 && (!threatened(n)
        || survival_rate > 0);
    ||| can_keep && next == current
    ||| can_spawn && exists|i: int| 0 <= i < n && spawn_of(#[trigger] living[i], next)
}

/// Whatever is drawn, a wall stays a wall, a living cell stays alive, and a
/// cell without a living neighbour stays as it is.
pub proof fn lemma_life_persists(
    current: Cell,
    neighbors: Seq<Cell>,
    survival_rate: int,
    spawn_rate: int,
    next: Cell,
)
    requires
        life_outcome(current, neighbors, survival_rate, spawn_rate, next),
    ensures
        current == Cell::Wall ==> next == Cell::Wall,
        current is Life ==> next is Life,
        life_cells(neighbors).len() == 0 ==> next == current,
        spawn_rate <= 0 ==> next == current,
{
}

/// A cell that changes takes the colour of one of its living neighbours,
/// each channel moved by at most 2.
pub proof fn lemma_life_inherits(
    current: Cell,
    neighbors: Seq<Cell>,
    survival_rate: int,
    spawn_rate: int,
    next: Cell,
)
    requires
        life_outcome(current, neighbors, survival_rate, spawn_rate, next),
        next != current,
    ensures
        exists|i: int|
            0 <= i < neighbors.len() && (#[trigger] neighbors[i]) is Life && next is Life && {
                let from = life_color(neighbors[i]);
                let to = life_color(next);
                &&& -2 <= to.0 - from.0 <= 2
                &&& -2 <= to.1 - from.1 <= 2
                &&& -2 <= to.2 - from.2 <= 2
            },
{
    let living = life_cells(neighbors);
    let i = choose|i: int| 0 <= i < living.len() && spawn_of(#[trigger] living[i], next);
    lemma_life_cells_among(neighbors, i);
    let j = choose|j: int| 0 <= j < neighbors.len() && #[trigger] neighbors[j] == living[i];
    assert(neighbors[j] is Life);
}

/// Every living cell of the list is a cell of the list.
pub proof fn lemma_life_cells_among(cells: Seq<Cell>, i: int)
    requires
        0 <= i < life_cells(cells).len(),
    ensures
        exists|j: int| 0 <= j < cells.len() && #[trigger] cells[j] == life_cells(cells)[i],
    decreases cells.len(),
{
    if cells.last() is Life && i == life_cells(cells).len() - 1 {
        assert(cells[cells.len() - 1] == life_cells(cells)[i]);
    } else {
        lemma_life_cells_among(cells.drop_last(), i);
        let j = choose|j: int|
            0 <= j < cells.drop_last().len() && #[trigger] cells.drop_last()[j] == life_cells(
                cells.drop_last(),
            )[i];
        assert(cells[j] == life_cells(cells)[i]);
    }
}

/// Every cell in a list of living cells is alive.
pub proof fn lemma_life_cells_alive(cells: Seq<Cell>)
    ensures
        forall|i: int| 0 <= i < life_cells(cells).len() ==> #[trigger] life_cells(cells)[i] is Life,
        life_cells(cells).len() <= cells.len(),
    decreases cells.len(),
{
    if cells.len() > 0 {
        lemma_life_cells_alive(cells.drop_last());
    }
}

/// Collects the living cells of a neighbourhood into a list.
pub fn collect_life(cells: &Vec<Cell>) -> (living: Vec<Cell>)
    ensures
        living@ == life_cells(cells@),
{
    let mut living: Vec<Cell> = Vec::new();
    let mut i: usize = 0;
    while i < cells.len()
        invariant
            i <= cells@.len(),
            living@ == life_cells(cells@.take(i as int)),
        decreases cells@.len() - i,
    {
        proof {
            assert(cells@.take(i + 1).drop_last() =~= cells@.take(i as int));
        }
        if cells[i].is_life() {
            living.push(cells[i]);
        }
        i += 1;
    }
    proof {
        assert(cells@.take(cells@.len() as int) =~= cells@);
    }
    living
}

/// Decides from the number of living neighbours and the two draws whether
/// the cell spawns.
pub fn decide_spawn(living: usize, will_survive: bool, will_spawn: bool) -> (b: bool)
    ensures
        b == spawns(living as int, will_survive, will_spawn),
{
    if (living > CROWDED_ABOVE || living < LONELY_BELOW) && !will_survive {
        false
    } else {
        living > 0 && will_spawn
    }
}

/// Makes the cell that spawns from a living cell with the given steps.
pub fn spawn_from(source: Cell, offsets: (i16, i16, i16)) -> (next: Cell)
    requires
        source is Life,
    ensures
        next == spawned_from(source, color_view(offsets)),
        valid_offset(offsets.0 as int) && valid_offset(offsets.1 as int) && valid_offset(
            offsets.2 as int,
        ) ==> spawn_of(source, next),
{
    proof {
        if valid_offset(offsets.0 as int) && valid_offset(offsets.1 as int) && valid_offset(
            offsets.2 as int,
        ) {
            lemma_mutation_reachable(life_color(source).0, offsets.0 as int);
            lemma_mutation_reachable(life_color(source).1, offsets.1 as int);
            lemma_mutation_reachable(life_color(source).2, offsets.2 as int);
        }
    }
    match source {
        Cell::Life(r, g, b) => {
            let c = mutate_color((r, g, b), offsets);
            Cell::Life(c.0, c.1, c.2)
        },
        _ => source,
    }
}

/// The rule for one cell with every draw given.
pub fn life_cell(
    current: Cell,
    neighbors: &Vec<Cell>,
    will_survive: bool,
    will_spawn: bool,
    pick: usize,
    offsets: (i16, i16, i16),
) -> (next: Cell)
    requires
        pick < life_cells(neighbors@).len() || life_cells(neighbors@).len() == 0,
    ensures
        next == life_next(
            current,
            neighbors@,
            will_survive,
            will_spawn,
            pick as int,
            color_view(offsets),
        ),
{
    if current.is_wall() {
        return current;
    }
    let living = collect_life(neighbors);
    proof {
        lemma_life_cells_alive(neighbors@);
    }
    if decide_spawn(living.len(), will_survive, will_spawn) {
        spawn_from(living[pick], offsets)
    } else {
        current
    }
}

/// The rule for one cell with fresh draws: one for survival and one for
/// spawning in every case, then one for the neighbour and three for the
/// colour where the cell spawns.
pub fn life_cell_randomly(
    current: Cell,
    neighbors: &Vec<Cell>,
    survival_rate: i64,
    spawn_rate: i64,
) -> (next: Cell)
    requires
        neighbors@.len() <= 8,
    ensures
        life_outcome(current, neighbors@, survival_rate as int, spawn_rate as int, next),
{
    if current.is_wall() {
        return current;
    }
    let living = collect_life(neighbors);
    proof {
        lemma_life_cells_alive(neighbors@);
    }
    let will_survive = chance(survival_rate);
    let will_spawn = chance(spawn_rate);
    if decide_spawn(living.len(), will_survive, will_spawn) {
        let pick = random_index(living.len());
        let offsets = random_offsets();
        let next = spawn_from(living[pick], offsets);
        assert(spawn_of(living@[pick as int], next));
        next
    } else {
        current
    }
}

impl Grid {
    /// One generation at the given rates. The pass reads only this grid and
    /// writes only the grid it returns.
    pub fn life_step(&self, survival_rate: i64, spawn_rate: i64) -> (next: Grid)
        requires
            self.wf(),
        ensures
            next.wf(),
            next.same_size(*self),
            forall|x: int, y: int|
                self.in_bounds(x, y) ==> life_outcome(
                    self.at(x, y),
                    self.neighbors(x, y),
                    survival_rate as int,
                    spawn_rate as int,
                    #[trigger] next.at(x, y),
                ),
    {
        let n: usize = self.len();
        let ghost w = self.spec_width();
        let mut cells: Vec<Cell> = Vec::new();
        let mut i: usize = 0;
        while i < n
            invariant
                self.wf(),
                n == self.cells().len(),
                w == self.spec_width(),
                i <= n,
                cells@.len() == i,
                forall|j: int|
                    0 <= j < i ==> life_outcome(
                        self.cells()[j],
                        self.neighbors(j % w, j / w),
                        survival_rate as int,
                        spawn_rate as int,
                        #[trigger] cells@[j],
                    ),
            decreases n - i,
        {
            let (x, y) = self.position(i);
            let around = self.neighbors_of(x, y);
            let c = life_cell_randomly(self.cell_at(y, x), &around, survival_rate, spawn_rate);
            cells.push(c);
            i += 1;
        }
        let next = Grid::from_cells(self.width(), self.height(), cells).unwrap();
        proof {
            assert forall|x: int, y: int| self.in_bounds(x, y) implies life_outcome(
                self.at(x, y),
                self.neighbors(x, y),
                survival_rate as int,
                spawn_rate as int,
                #[trigger] next.at(x, y),
            ) by {
                lemma_flat_in_range(x, y, self.spec_width(), self.spec_height());
            }
        }
        next
    }
}

} // verus!
