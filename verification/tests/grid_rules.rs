use zslime::cell::Cell;
use zslime::diffusion::{diffuse_cell, heat_of, sum_heat};
use zslime::erosion::{count_empty_cells, erode_cell};
use zslime::grid::Grid;

fn filled(width: usize, height: usize, cell: Cell) -> Grid {
    Grid::from_cells(width, height, vec![cell; width * height]).unwrap()
}

fn snapshot(grid: &Grid) -> Vec<Cell> {
    let mut all = Vec::new();
    for row in 0..grid.height() {
        for col in 0..grid.width() {
            all.push(grid.cell_at(row, col));
        }
    }
    all
}

#[test]
fn new_grid_is_empty() {
    let grid = Grid::new(4, 3);
    assert_eq!(grid.width(), 4);
    assert_eq!(grid.height(), 3);
    assert_eq!(grid.len(), 12);
    assert!(snapshot(&grid).iter().all(|c| *c == Cell::Empty));
}

#[test]
fn from_cells_wants_one_cell_per_position() {
    assert!(Grid::from_cells(2, 2, vec![Cell::Wall; 4]).is_some());
    assert!(Grid::from_cells(2, 2, vec![Cell::Wall; 3]).is_none());
    assert!(Grid::from_cells(2, 2, vec![Cell::Wall; 5]).is_none());
    assert!(Grid::from_cells(usize::MAX, 2, vec![Cell::Wall; 2]).is_none());
    assert!(Grid::from_cells(0, 7, Vec::new()).is_some());
}

#[test]
fn cells_are_stored_row_by_row() {
    let cells = vec![
        Cell::Heat(0, 0, 0),
        Cell::Heat(1, 0, 0),
        Cell::Heat(2, 0, 0),
        Cell::Heat(3, 0, 0),
        Cell::Heat(4, 0, 0),
        Cell::Heat(5, 0, 0),
    ];
    let grid = Grid::from_cells(3, 2, cells).unwrap();
    assert_eq!(grid.cell_at(0, 2), Cell::Heat(2, 0, 0));
    assert_eq!(grid.cell_at(1, 0), Cell::Heat(3, 0, 0));
    assert_eq!(grid.position(4), (1, 1));
    assert_eq!(grid.position(2), (2, 0));
}

#[test]
fn set_cell_changes_one_cell() {
    let mut grid = Grid::new(3, 3);
    grid.set_cell(1, 2, Cell::Wall);
    for row in 0..3 {
        for col in 0..3 {
            let expected = if row == 1 && col == 2 { Cell::Wall } else { Cell::Empty };
            assert_eq!(grid.cell_at(row, col), expected);
        }
    }
}

fn numbered(width: usize, height: usize) -> Grid {
    let mut cells = Vec::new();
    for i in 0..width * height {
        cells.push(Cell::Heat(i as u8, 0, 0));
    }
    Grid::from_cells(width, height, cells).unwrap()
}

fn reds(cells: &[Cell]) -> Vec<u8> {
    cells.iter().map(|c| heat_of(*c).0).collect()
}

#[test]
fn interior_cell_has_eight_neighbors() {
    let grid = numbered(3, 3);
    assert_eq!(reds(&grid.neighbors_of(1, 1)), vec![0, 1, 2, 3, 5, 6, 7, 8]);
}

#[test]
fn corner_cell_has_three_neighbors() {
    let grid = numbered(3, 3);
    assert_eq!(reds(&grid.neighbors_of(0, 0)), vec![1, 3, 4]);
    assert_eq!(reds(&grid.neighbors_of(2, 2)), vec![4, 5, 7]);
    assert_eq!(reds(&grid.neighbors_of(2, 0)), vec![1, 4, 5]);
}

#[test]
fn edge_cell_has_five_neighbors() {
    let grid = numbered(3, 3);
    assert_eq!(reds(&grid.neighbors_of(1, 0)), vec![0, 2, 3, 4, 5]);
    assert_eq!(reds(&grid.neighbors_of(0, 1)), vec![0, 1, 4, 6, 7]);
}

#[test]
fn neighbors_do_not_wrap_around() {
    let grid = numbered(4, 1);
    assert_eq!(reds(&grid.neighbors_of(0, 0)), vec![1]);
    assert_eq!(reds(&grid.neighbors_of(3, 0)), vec![2]);
    let single = numbered(1, 1);
    assert!(single.neighbors_of(0, 0).is_empty());
}

#[test]
fn steps_on_a_grid_without_cells() {
    let grid = Grid::new(0, 0);
    assert_eq!(grid.erode().len(), 0);
    assert_eq!(grid.diffuse().len(), 0);
    assert_eq!(grid.life_step(1_000_000, 1_000_000).len(), 0);
    let wide = Grid::new(5, 0);
    let next = wide.diffuse();
    assert_eq!((next.width(), next.height(), next.len()), (5, 0, 0));
}

#[test]
fn count_empty_counts_only_empty() {
    let cells = vec![Cell::Empty, Cell::Wall, Cell::Empty, Cell::Heat(0, 0, 0), Cell::Life(1, 1, 1)];
    assert_eq!(count_empty_cells(&cells), 2);
    assert_eq!(count_empty_cells(&Vec::new()), 0);
}

fn around(empty: usize) -> Vec<Cell> {
    let mut cells = vec![Cell::Wall; 8];
    for c in cells.iter_mut().take(empty) {
        *c = Cell::Empty;
    }
    cells
}

#[test]
fn erosion_follows_the_majority() {
    for empty in 5..=8 {
        assert_eq!(erode_cell(Cell::Wall, &around(empty)), Cell::Empty);
        assert_eq!(erode_cell(Cell::Empty, &around(empty)), Cell::Empty);
    }
    for empty in 0..=3 {
        assert_eq!(erode_cell(Cell::Wall, &around(empty)), Cell::Wall);
        assert_eq!(erode_cell(Cell::Empty, &around(empty)), Cell::Wall);
    }
}

#[test]
fn erosion_tie_keeps_the_cell() {
    assert_eq!(erode_cell(Cell::Wall, &around(4)), Cell::Wall);
    assert_eq!(erode_cell(Cell::Empty, &around(4)), Cell::Empty);
}

#[test]
fn erosion_tie_on_a_grid() {
    // The centre of each grid has exactly four empty neighbours.
    for centre in [Cell::Wall, Cell::Empty] {
        let mut grid = filled(3, 3, Cell::Wall);
        grid.set_cell(0, 0, Cell::Empty);
        grid.set_cell(0, 2, Cell::Empty);
        grid.set_cell(2, 0, Cell::Empty);
        grid.set_cell(2, 2, Cell::Empty);
        grid.set_cell(1, 1, centre);
        let next = grid.erode();
        assert_eq!(next.cell_at(1, 1), centre);
    }
}

#[test]
fn erosion_of_an_empty_grid() {
    let grid = Grid::new(3, 3);
    let next = grid.erode();
    // Corners see 3 empty cells, edges 5, the centre 8.
    assert_eq!(next.cell_at(0, 0), Cell::Wall);
    assert_eq!(next.cell_at(2, 2), Cell::Wall);
    assert_eq!(next.cell_at(0, 1), Cell::Empty);
    assert_eq!(next.cell_at(1, 0), Cell::Empty);
    assert_eq!(next.cell_at(1, 1), Cell::Empty);
}

#[test]
fn erosion_reads_only_the_old_grid() {
    // Row by row in place, the corner would turn to Wall before its
    // neighbour counts it. Each edge cell must still see it as Empty.
    let grid = Grid::new(2, 3);
    let next = grid.erode();
    assert_eq!(next.cell_at(0, 0), Cell::Wall);
    assert_eq!(next.cell_at(1, 0), Cell::Empty);
    assert_eq!(next.cell_at(1, 1), Cell::Empty);
}

#[test]
fn steps_leave_their_input_alone() {
    let mut grid = numbered(4, 3);
    grid.set_cell(1, 1, Cell::Wall);
    let before = snapshot(&grid);
    let eroded = grid.erode();
    let diffused = grid.diffuse();
    let lived = grid.life_step(1_000_000, 1_000_000);
    assert_eq!(snapshot(&grid), before);
    for next in [eroded, diffused, lived] {
        assert_eq!((next.width(), next.height()), (4, 3));
        assert_eq!(next.len(), 12);
    }
}

#[test]
fn heat_sum_adds_channels() {
    let cells = vec![Cell::Heat(1, 2, 3), Cell::Empty, Cell::Heat(255, 255, 255), Cell::Wall];
    assert_eq!(sum_heat(&cells), (256, 257, 258));
    assert_eq!(heat_of(Cell::Life(9, 9, 9)), (0, 0, 0));
    assert_eq!(heat_of(Cell::Heat(9, 8, 7)), (9, 8, 7));
}

#[test]
fn diffusion_divides_by_nine() {
    let eight = vec![Cell::Heat(255, 255, 255); 8];
    assert_eq!(diffuse_cell(Cell::Heat(255, 255, 255), &eight), Cell::Heat(255, 255, 255));
    let three = vec![Cell::Heat(90, 9, 17); 3];
    assert_eq!(diffuse_cell(Cell::Heat(90, 9, 17), &three), Cell::Heat(40, 4, 7));
    assert_eq!(diffuse_cell(Cell::Empty, &Vec::new()), Cell::Heat(0, 0, 0));
}

#[test]
fn uniform_heat_stays_inside_and_drains_at_the_rim() {
    for c in [1u8, 9, 90, 200, 255] {
        let grid = filled(3, 3, Cell::Heat(c, c, c));
        let next = grid.diffuse();
        assert_eq!(next.cell_at(1, 1), Cell::Heat(c, c, c));
        let corner = (4 * c as u32 / 9) as u8;
        let edge = (6 * c as u32 / 9) as u8;
        assert!(corner < c);
        for (row, col) in [(0, 0), (0, 2), (2, 0), (2, 2)] {
            assert_eq!(next.cell_at(row, col), Cell::Heat(corner, corner, corner));
        }
        for (row, col) in [(0, 1), (1, 0), (1, 2), (2, 1)] {
            assert_eq!(next.cell_at(row, col), Cell::Heat(edge, edge, edge));
        }
    }
}

#[test]
fn one_hot_cell_spreads_to_its_block() {
    let mut grid = Grid::new(5, 5);
    grid.set_cell(2, 2, Cell::Heat(90, 180, 9));
    let next = grid.diffuse();
    for row in 0..5 {
        for col in 0..5 {
            let near = (1..=3).contains(&row) && (1..=3).contains(&col);
            let expected = if near { Cell::Heat(10, 20, 1) } else { Cell::Heat(0, 0, 0) };
            assert_eq!(next.cell_at(row, col), expected);
        }
    }
}

#[test]
fn cell_kinds_and_colors() {
    assert!(Cell::Empty.is_empty());
    assert!(!Cell::Wall.is_empty());
    assert!(Cell::Wall.is_wall());
    assert!(Cell::Life(1, 2, 3).is_life());
    assert!(!Cell::Heat(1, 2, 3).is_life());
    assert!(Cell::Heat(1, 2, 3).is_heat());
    assert_eq!(Cell::Life(1, -2, 300).color(), Some((1, -2, 300)));
    assert_eq!(Cell::Heat(1, 2, 255).color(), Some((1, 2, 255)));
    assert_eq!(Cell::Empty.color(), None);
    assert_eq!(Cell::Wall.color(), None);
    assert_ne!(Cell::Life(1, 2, 3), Cell::Life(1, 2, 4));
    assert_eq!(Cell::Heat(1, 2, 3), Cell::Heat(1, 2, 3));
}
