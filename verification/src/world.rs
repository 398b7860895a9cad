//! The simulation context: one grid, the parameters that the user may
//! change between steps, and the placement of the grid on the screen.

use vstd::prelude::*;
use crate::cell::Cell;
use crate::deposit::deposited;
use crate::deposit::deposits_fit;
use crate::deposit::Deposit;
use crate::grid::Grid;
use crate::life::SPAWN_RATE;
use crate::life::SURVIVAL_RATE;

verus! {

/// The width of the screen, in pixels.
pub const SCREEN_WIDTH: usize = 800;

/// The height of the screen, in pixels.
pub const SCREEN_HEIGHT: usize = 900;

/// The number of columns of a new world.
pub const CELLS_WIDTH: usize = 300;

/// The number of rows of a new world.
pub const CELLS_HEIGHT: usize = 300;

/// The screen column left of the grid.
pub const CELLS_X: i64 = 100;

/// The screen row above the grid.
pub const CELLS_Y: i64 = 200;

/// The side of the square of pixels that shows one cell of a new world.
pub const SCALE: u16 = 2;

/// The density of a new world, in millionths.
pub const DEFAULT_DENSITY: i64 = 500_000;

/// The colour of the background and of an empty cell.
pub open spec fn white() -> (u8, u8, u8, u8) {
    (0xff, 0xff, 0xff, 0xff)
}

/// A colour channel as a byte: values below 0 show as 0, values above 255
/// as 255.
pub open spec fn channel_byte(v: int) -> u8 {
    if v < 0 {
        0u8
    } else if v > 255 {
        255u8
    } else {
        v as u8
    }
}

/// The opaque colour in which a cell is shown: white for `Empty`, black for
/// `Wall`, its own colour otherwise.
pub open spec fn cell_rgba(cell: Cell) -> (u8, u8, u8, u8) {
    match cell {
        Cell::Empty => white(),
        Cell::Wall => (0u8, 0u8, 0u8, 0xffu8),
        Cell::Life(r, g, b) => (
            channel_byte(r as int),
            channel_byte(g as int),
            channel_byte(b as int),
            0xffu8,
        ),
        Cell::Heat(r, g, b) => (r, g, b, 0xffu8),
    }
}

/// One of the four bytes of a pixel: red, green, blue, opacity.
pub open spec fn rgba_byte(c: (u8, u8, u8, u8), k: int) -> u8 {
    if k == 0 {
        c.0
    } else if k == 1 {
        c.1
    } else if k == 2 {
        c.2
    } else {
        c.3
    }
}

/// The sum of two numbers, held inside the range of `i64`.
pub open spec fn saturating_sum(a: int, b: int) -> int {
    if a + b > i64::MAX {
        i64::MAX as int
    } else if a + b < i64::MIN {
        i64::MIN as int
    } else {
        a + b
    }
}

fn byte_of(v: i16) -> (b: u8)
    ensures
        b == channel_byte(v as int),
{
    if v < 0 {
        0
    } else if v > 255 {
        255
    } else {
        v as u8
    }
}

/// The colour in which a cell is shown.
pub fn rgba_of(cell: Cell) -> (c: (u8, u8, u8, u8))
    ensures
        c == cell_rgba(cell),
{
    match cell {
        Cell::Empty => (0xff, 0xff, 0xff, 0xff),
        Cell::Wall => (0, 0, 0, 0xff),
        Cell::Life(r, g, b) => (byte_of(r), byte_of(g), byte_of(b), 0xff),
        Cell::Heat(r, g, b) => (r, g, b, 0xff),
    }
}

/// The grid and the parameters of one simulation. The parameters may be
/// changed between steps; a step reads them and leaves them alone.
#[derive(Debug)]
pub struct World {
    pub grid: Grid,
    pub draw_scale: u16,
    pub density: i64,
    pub zoom: usize,
    pub survival_rate: i64,
    pub spawn_rate: i64,
}

impl World {
    /// The grid is whole, blocks and cells have a size.
    pub open spec fn wf(self) -> bool {
        self.grid.wf() && self.zoom >= 1 && self.draw_scale >= 1
    }

    /// Whether a step left the parameters as they were.
    pub open spec fn same_parameters(self, other: World) -> bool {
        &&& self.draw_scale == other.draw_scale
        &&& self.density == other.density
        &&& self.zoom == other.zoom
        &&& self.survival_rate == other.survival_rate
        &&& self.spawn_rate == other.spawn_rate
    }

    /// Whether the pixel at column `x` of row `y` shows a cell: strictly
    /// right of and below the grid's corner, and within its scaled size.
    pub open spec fn inside(self, x: int, y: int) -> bool {
        &&& CELLS_X < x < CELLS_X + self.grid.spec_width() * self.draw_scale
        &&& CELLS_Y < y < CELLS_Y + self.grid.spec_height() * self.draw_scale
    }

    /// The row and column of the cell that the pixel at column `x` of row
    /// `y` shows: the distance from the grid's corner, divided by the
    /// scale and wrapped into the grid.
    pub open spec fn cell_shown(self, x: int, y: int) -> (int, int) {
        (
            ((y - CELLS_Y) / (self.draw_scale as int)) % self.grid.spec_height(),
            ((x - CELLS_X) / (self.draw_scale as int)) % self.grid.spec_width(),
        )
    }

    /// The colour of the `i`-th pixel of the screen, row by row.
    pub open spec fn pixel_rgba(self, i: int) -> (u8, u8, u8, u8) {
        let x = i % (SCREEN_WIDTH as int);
        let y = i / (SCREEN_WIDTH as int);
        if self.inside(x, y) {
            let at = self.cell_shown(x, y);
            cell_rgba(self.grid.at(at.1, at.0))
        } else {
            white()
        }
    }

    /// A world of 300 by 300 empty cells with the default parameters.
    pub fn new() -> (world: World)
        ensures
            world.wf(),
            world.grid.spec_width() == CELLS_WIDTH,
            world.grid.spec_height() == CELLS_HEIGHT,
            forall|x: int, y: int|
                world.grid.in_bounds(x, y) ==> #[trigger] world.grid.at(x, y) == Cell::Empty,
            world.draw_scale == SCALE,
            world.density == DEFAULT_DENSITY,
            world.zoom == 1,
            world.survival_rate == SURVIVAL_RATE,
            world.spawn_rate == SPAWN_RATE,
    {
        let grid = Grid::new(CELLS_WIDTH, CELLS_HEIGHT);
        proof {
            assert forall|x: int, y: int| grid.in_bounds(x, y) implies #[trigger] grid.at(x, y)
                == Cell::Empty by {
                crate::grid::lemma_flat_in_range(x, y, grid.spec_width(), grid.spec_height());
            }
        }
        World {
            grid,
            draw_scale: SCALE,
            density: DEFAULT_DENSITY,
            zoom: 1,
            survival_rate: SURVIVAL_RATE,
            spawn_rate: SPAWN_RATE,
        }
    }

    /// Whether a screen position lies on the grid.
    pub fn mouse_inside_world(&self, x: i16, y: i16) -> (b: bool)
        requires
            self.wf(),
        ensures
            b == self.inside(x as int, y as int),
    {
        self.shows_cell(x as i64, y as i64)
    }

    fn shows_cell(&self, x: i64, y: i64) -> (b: bool)
        requires
            self.wf(),
        ensures
            b == self.inside(x as int, y as int),
    {
        let scale: u128 = self.draw_scale as u128;
        let w: u128 = self.grid.width() as u128;
        let h: u128 = self.grid.height() as u128;
        proof {
            assert(w * scale <= 0xffff_ffff_ffff_ffff * 0xffff) by (nonlinear_arith)
                requires
                    w <= 0xffff_ffff_ffff_ffff,
                    scale <= 0xffff,
            ;
            assert(h * scale <= 0xffff_ffff_ffff_ffff * 0xffff) by (nonlinear_arith)
                requires
                    h <= 0xffff_ffff_ffff_ffff,
                    scale <= 0xffff,
            ;
        }
        x > CELLS_X && y > CELLS_Y && ((x - CELLS_X) as u128) < w * scale && ((y - CELLS_Y) as u128)
            < h * scale
    }

    /// The row and column of the cell under a screen position, if the
    /// position lies on the grid.
    pub fn cell_under(&self, x: i64, y: i64) -> (at: Option<(usize, usize)>)
        requires
            self.wf(),
        ensures
            at.is_some() <==> self.inside(x as int, y as int),
            at matches Some(p) ==> {
                &&& (p.0 as int, p.1 as int) == self.cell_shown(x as int, y as int)
                &&& self.grid.in_bounds(p.1 as int, p.0 as int)
            },
    {
        if !self.shows_cell(x, y) {
            return None;
        }
        let scale: i64 = self.draw_scale as i64;
        proof {
            let w = self.grid.spec_width();
            let h = self.grid.spec_height();
            assert(w > 0 && h > 0) by (nonlinear_arith)
                requires
                    0 < w * scale,
                    0 < h * scale,
                    0 <= w,
                    0 <= h,
                    1 <= scale,
            ;
            assert(0 <= (y - CELLS_Y) / (scale as int) <= y - CELLS_Y) by (nonlinear_arith)
                requires
                    0 <= y - CELLS_Y,
                    1 <= scale,
            ;
            assert(0 <= (x - CELLS_X) / (scale as int) <= x - CELLS_X) by (nonlinear_arith)
                requires
                    0 <= x - CELLS_X,
                    1 <= scale,
            ;
            assert(h * scale == scale * h && w * scale == scale * w) by (nonlinear_arith);
            vstd::arithmetic::div_mod::lemma_multiply_divide_lt(y - CELLS_Y, scale as int, h);
            vstd::arithmetic::div_mod::lemma_multiply_divide_lt(x - CELLS_X, scale as int, w);
        }
        let row: usize = (((y - CELLS_Y) / scale) as usize) % self.grid.height();
        let col: usize = (((x - CELLS_X) / scale) as usize) % self.grid.width();
        Some((row, col))
    }

    /// The colour of the `i`-th pixel of the screen.
    pub fn pixel_color(&self, i: usize) -> (c: (u8, u8, u8, u8))
        requires
            self.wf(),
        ensures
            c == self.pixel_rgba(i as int),
    {
        let x: i64 = (i % SCREEN_WIDTH) as i64;
        let y: i64 = (i / SCREEN_WIDTH) as i64;
        match self.cell_under(x, y) {
            Some((row, col)) => rgba_of(self.grid.cell_at(row, col)),
            None => (0xff, 0xff, 0xff, 0xff),
        }
    }

    /// Paints the world into a frame of four bytes for each pixel: red,
    /// green, blue, opacity. Bytes after the last whole pixel stay as they
    /// are.
    pub fn draw(&self, frame: &mut Vec<u8>)
        requires
            self.wf(),
        ensures
            final(frame)@.len() == old(frame)@.len(),
            forall|k: int|
                0 <= k < 4 * (old(frame)@.len() / 4) ==> #[trigger] final(frame)@[k] == rgba_byte(
                    self.pixel_rgba(k / 4),
                    k % 4,
                ),
            forall|k: int|
                4 * (old(frame)@.len() / 4) <= k < old(frame)@.len() ==> #[trigger] final(frame)@[k]
                    == old(frame)@[k],
    {
        let ghost before = frame@;
        let pixels: usize = frame.len() / 4;
        let mut p: usize = 0;
        while p < pixels
            invariant
                self.wf(),
                pixels == before.len() / 4,
                before.len() <= usize::MAX,
                p <= pixels,
                frame@.len() == before.len(),
                forall|k: int|
                    0 <= k < 4 * p ==> #[trigger] frame@[k] == rgba_byte(
                        self.pixel_rgba(k / 4),
                        k % 4,
                    ),
                forall|k: int| 4 * p <= k < before.len() ==> #[trigger] frame@[k] == before[k],
            decreases pixels - p,
        {
            let c = self.pixel_color(p);
            let at: usize = 4 * p;
            frame.set(at, c.0);
            frame.set(at + 1, c.1);
            frame.set(at + 2, c.2);
            frame.set(at + 3, c.3);
            p += 1;
        }
    }

    /// Reads the cell at the given row and column.
    pub fn cell_at(&self, row: usize, col: usize) -> (c: Cell)
        requires
            self.wf(),
            self.grid.in_bounds(col as int, row as int),
        ensures
            c == self.grid.at(col as int, row as int),
    {
        self.grid.cell_at(row, col)
    }

    /// Puts one cell on the grid at the given row and column.
    pub fn inject(&mut self, row: usize, col: usize, cell: Cell)
        requires
            old(self).wf(),
            old(self).grid.in_bounds(col as int, row as int),
        ensures
            final(self).wf(),
            final(self).same_parameters(*old(self)),
            final(self).grid.same_size(old(self).grid),
            final(self).grid.cells() == old(self).grid.cells().update(
                crate::grid::flat(col as int, row as int, old(self).grid.spec_width()),
                cell,
            ),
    {
        self.grid.set_cell(row, col, cell);
    }

    /// Leaves the given colour as heat in the cell whose flat index is that
    /// of column `x` in row `y`, as an agent does where it stands.
    pub fn deposit_heat(&mut self, x: usize, y: usize, rgb: (u8, u8, u8))
        requires
            old(self).wf(),
            crate::grid::flat(x as int, y as int, old(self).grid.spec_width()) < old(
                self,
            ).grid.cells().len(),
        ensures
            final(self).wf(),
            final(self).same_parameters(*old(self)),
            final(self).grid.same_size(old(self).grid),
            final(self).grid.cells() == old(self).grid.cells().update(
                crate::grid::flat(x as int, y as int, old(self).grid.spec_width()),
                Cell::Heat(rgb.0, rgb.1, rgb.2),
            ),
    {
        self.grid.deposit_heat(x, y, rgb);
    }

    /// One step of the heat simulation: the agents leave their heat where
    /// they stand after moving, then the heat spreads.
    pub fn update(&mut self, deposits: &Vec<Deposit>)
        requires
            old(self).wf(),
            deposits_fit(
                deposits@,
                old(self).grid.spec_width(),
                old(self).grid.cells().len() as int,
            ),
        ensures
            final(self).wf(),
            final(self).same_parameters(*old(self)),
            final(self).grid.same_size(old(self).grid),
            exists|warm: Grid|
                {
                    &&& warm.wf()
                    &&& warm.same_size(old(self).grid)
                    &&& #[trigger] warm.cells() == deposited(
                        old(self).grid.cells(),
                        old(self).grid.spec_width(),
                        deposits@,
                    )
                    &&& forall|x: int, y: int|
                        warm.in_bounds(x, y) ==> #[trigger] final(self).grid.at(x, y)
                            == crate::diffusion::diffused(warm.at(x, y), warm.neighbors(x, y))
                },
    {
        self.grid.deposit_all(deposits);
        let ghost warm = self.grid;
        self.update_tiles();
        assert(warm.cells() == deposited(
            old(self).grid.cells(),
            old(self).grid.spec_width(),
            deposits@,
        ));
    }

    /// Advances the heat on the grid by one pass of diffusion.
    pub fn update_tiles(&mut self)
        requires
            old(self).wf(),
        ensures
            final(self).wf(),
            final(self).same_parameters(*old(self)),
            final(self).grid.same_size(old(self).grid),
            forall|x: int, y: int|
                old(self).grid.in_bounds(x, y) ==> #[trigger] final(self).grid.at(x, y)
                    == crate::diffusion::diffused(
                    old(self).grid.at(x, y),
                    old(self).grid.neighbors(x, y),
                ),
    {
        let next = self.grid.diffuse();
        self.grid = next;
    }

    /// Runs one pass of erosion.
    pub fn erode(&mut self)
        requires
            old(self).wf(),
        ensures
            final(self).wf(),
            final(self).same_parameters(*old(self)),
            final(self).grid.same_size(old(self).grid),
            forall|x: int, y: int|
                old(self).grid.in_bounds(x, y) ==> #[trigger] final(self).grid.at(x, y)
                    == crate::erosion::eroded(
                    old(self).grid.at(x, y),
                    crate::erosion::count_empty(old(self).grid.neighbors(x, y)),
                ),
    {
        let next = self.grid.erode();
        self.grid = next;
    }

    /// Advances the grid by one generation of Life at the world's rates.
    pub fn life_step(&mut self)
        requires
            old(self).wf(),
        ensures
            final(self).wf(),
            final(self).same_parameters(*old(self)),
            final(self).grid.same_size(old(self).grid),
            forall|x: int, y: int|
                old(self).grid.in_bounds(x, y) ==> crate::life::life_outcome(
                    old(self).grid.at(x, y),
                    old(self).grid.neighbors(x, y),
                    old(self).survival_rate as int,
                    old(self).spawn_rate as int,
                    #[trigger] final(self).grid.at(x, y),
                ),
    {
        let next = self.grid.life_step(self.survival_rate, self.spawn_rate);
        self.grid = next;
    }

    /// Replaces the grid by a fresh seed at the world's density and zoom.
    pub fn reseed(&mut self)
        requires
            old(self).wf(),
        ensures
            final(self).wf(),
            final(self).same_parameters(*old(self)),
            final(self).grid.same_size(old(self).grid),
            forall|x: int, y: int|
                final(self).grid.in_bounds(x, y) ==> {
                    let c = #[trigger] final(self).grid.at(x, y);
                    c == Cell::Wall || c == Cell::Empty
                },
            old(self).density <= 0 ==> forall|x: int, y: int|
                final(self).grid.in_bounds(x, y) ==> #[trigger] final(self).grid.at(x, y)
                    == Cell::Empty,
            old(self).density >= crate::chance::PROBABILITY_SCALE ==> forall|x: int, y: int|
                final(self).grid.in_bounds(x, y) ==> #[trigger] final(self).grid.at(x, y)
                    == Cell::Wall,
    {
        let density = self.density;
        let zoom = self.zoom;
        self.grid.reseed(density, zoom);
    }

    /// Moves the density by `delta` millionths. The density has no bound but
    /// that of its type, at which it stops.
    pub fn adjust_density(&mut self, delta: i64)
        ensures
            final(self).density == saturating_sum(old(self).density as int, delta as int),
            final(self).grid == old(self).grid,
            final(self).draw_scale == old(self).draw_scale,
            final(self).zoom == old(self).zoom,
            final(self).survival_rate == old(self).survival_rate,
            final(self).spawn_rate == old(self).spawn_rate,
    {
        let sum: i128 = self.density as i128 + delta as i128;
        if sum > i64::MAX as i128 {
            self.density = i64::MAX;
        } else if sum < i64::MIN as i128 {
            self.density = i64::MIN;
        } else {
            self.density = sum as i64;
        }
    }

    /// Makes the seeding blocks one cell larger.
    pub fn zoom_in(&mut self)
        ensures
            final(self).zoom == if old(self).zoom < usize::MAX {
                old(self).zoom + 1
            } else {
                old(self).zoom as int
            },
            final(self).grid == old(self).grid,
            final(self).draw_scale == old(self).draw_scale,
            final(self).density == old(self).density,
            final(self).survival_rate == old(self).survival_rate,
            final(self).spawn_rate == old(self).spawn_rate,
    {
        if self.zoom < usize::MAX {
            self.zoom = self.zoom + 1;
        }
    }

    /// Makes the seeding blocks one cell smaller, but never smaller than
    /// one cell.
    pub fn zoom_out(&mut self)
        ensures
            final(self).zoom == if old(self).zoom > 1 {
                old(self).zoom - 1
            } else {
                old(self).zoom as int
            },
            final(self).grid == old(self).grid,
            final(self).draw_scale == old(self).draw_scale,
            final(self).density == old(self).density,
            final(self).survival_rate == old(self).survival_rate,
            final(self).spawn_rate == old(self).spawn_rate,
    {
        if self.zoom > 1 {
            self.zoom = self.zoom - 1;
        }
    }
}

} // verus!
