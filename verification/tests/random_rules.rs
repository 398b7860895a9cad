use rand::Rng;
use zslime::cell::Cell;
use zslime::chance::{chance, decide, random_index, random_int, PROBABILITY_SCALE};
use zslime::grid::Grid;
use zslime::life::{
    collect_life, decide_spawn, life_cell, life_cell_randomly, spawn_from, SPAWN_RATE,
    SURVIVAL_RATE,
};
use zslime::mutation::{
    mutate_channel, mutate_color, mutate_color_randomly, random_offset, random_offsets,
};
use zslime::seeding::block_count;

fn within_two(source: (i16, i16, i16), out: (i16, i16, i16)) -> bool {
    (source.0 - out.0).abs() <= 2 && (source.1 - out.1).abs() <= 2 && (source.2 - out.2).abs() <= 2
}

#[test]
fn random_int_stays_in_range_and_varies() {
    let mut seen = [false; 256];
    for _ in 0..2000 {
        let v = random_int(3, 7);
        assert!((3..7).contains(&v));
        seen[v as usize] = true;
    }
    assert!(seen[3] && seen[4] && seen[5] && seen[6]);
    for _ in 0..100 {
        assert_eq!(random_int(254, 255), 254);
    }
}

#[test]
fn random_index_stays_in_range_and_varies() {
    let mut seen = [false; 5];
    for _ in 0..2000 {
        seen[random_index(5)] = true;
    }
    assert!(seen.iter().all(|s| *s));
    assert_eq!(random_index(1), 0);
}

#[test]
fn random_offsets_cover_minus_two_to_two() {
    let mut seen = [false; 5];
    for _ in 0..2000 {
        let o = random_offset();
        assert!((-2..=2).contains(&o));
        seen[(o + 2) as usize] = true;
    }
    assert!(seen.iter().all(|s| *s));
    let (r, g, b) = random_offsets();
    assert!(r.abs() <= 2 && g.abs() <= 2 && b.abs() <= 2);
}

#[test]
fn decide_compares_draw_and_rate() {
    assert!(decide(0, 1));
    assert!(!decide(1, 1));
    assert!(!decide(0, 0));
    assert!(!decide(0, -5));
    assert!(decide(PROBABILITY_SCALE - 1, PROBABILITY_SCALE));
}

#[test]
fn chance_degenerates_at_the_ends() {
    for _ in 0..1000 {
        assert!(!chance(0));
        assert!(!chance(-3));
        assert!(chance(PROBABILITY_SCALE));
        assert!(chance(PROBABILITY_SCALE + 10));
    }
}

#[test]
fn chance_follows_its_rate() {
    let mut hits = 0;
    for _ in 0..20_000 {
        if chance(PROBABILITY_SCALE / 4) {
            hits += 1;
        }
    }
    assert!((4400..5600).contains(&hits));
}

#[test]
fn mutate_channel_takes_steps_that_stay_in_range() {
    assert_eq!(mutate_channel(100, 2), 102);
    assert_eq!(mutate_channel(100, -2), 98);
    assert_eq!(mutate_channel(100, 0), 100);
    assert_eq!(mutate_channel(254, 1), 255);
    assert_eq!(mutate_channel(2, -1), 1);
}

#[test]
fn mutate_channel_drops_steps_that_leave_the_range() {
    assert_eq!(mutate_channel(1, -1), 1);
    assert_eq!(mutate_channel(2, -2), 2);
    assert_eq!(mutate_channel(255, 1), 255);
    assert_eq!(mutate_channel(254, 2), 254);
    assert_eq!(mutate_channel(0, 0), 0);
    assert_eq!(mutate_channel(0, 1), 1);
    assert_eq!(mutate_channel(300, -2), 300);
    assert_eq!(mutate_channel(i16::MAX, 2), i16::MAX);
    assert_eq!(mutate_channel(i16::MIN, -2), i16::MIN);
}

#[test]
fn mutate_color_steps_each_channel() {
    assert_eq!(mutate_color((10, 255, 1), (2, 1, -1)), (12, 255, 1));
    assert_eq!(mutate_color((10, 20, 30), (-2, 0, 2)), (8, 20, 32));
}

#[test]
fn mutation_of_random_triples_stays_bounded() {
    let mut rng = rand::thread_rng();
    for _ in 0..10_000 {
        let rgb: (i16, i16, i16) =
            (rng.gen_range(1..=255), rng.gen_range(1..=255), rng.gen_range(1..=255));
        let offsets: (i16, i16, i16) =
            (rng.gen_range(-2..=2), rng.gen_range(-2..=2), rng.gen_range(-2..=2));
        for out in [mutate_color(rgb, offsets), mutate_color_randomly(rgb)] {
            assert!(0 < out.0 && out.0 <= 255);
            assert!(0 < out.1 && out.1 <= 255);
            assert!(0 < out.2 && out.2 <= 255);
            assert!(within_two(rgb, out));
        }
    }
}

#[test]
fn rates_are_in_millionths() {
    assert_eq!(PROBABILITY_SCALE, 1_000_000);
    assert_eq!(SURVIVAL_RATE, 990_000);
    assert_eq!(SPAWN_RATE, 100_000);
}

#[test]
fn collect_life_keeps_living_cells_in_order() {
    let cells = vec![
        Cell::Empty,
        Cell::Life(1, 1, 1),
        Cell::Wall,
        Cell::Life(2, 2, 2),
        Cell::Heat(3, 3, 3),
    ];
    assert_eq!(collect_life(&cells), vec![Cell::Life(1, 1, 1), Cell::Life(2, 2, 2)]);
}

#[test]
fn spawn_decision_table() {
    // Threatened and not spared: no spawn, whatever else was drawn.
    for n in [0, 1, 2, 6, 7, 8] {
        assert!(!decide_spawn(n, false, true));
        assert!(!decide_spawn(n, false, false));
    }
    // Spared or at ease: spawn where there is a neighbour and a spawn draw.
    assert!(!decide_spawn(0, true, true));
    for n in [1, 2, 6, 7, 8] {
        assert!(decide_spawn(n, true, true));
        assert!(!decide_spawn(n, true, false));
    }
    for n in [3, 4, 5] {
        assert!(decide_spawn(n, false, true));
        assert!(decide_spawn(n, true, true));
        assert!(!decide_spawn(n, false, false));
    }
}

#[test]
fn spawn_from_mutates_the_source_color() {
    assert_eq!(spawn_from(Cell::Life(10, 255, 1), (2, 2, -2)), Cell::Life(12, 255, 1));
}

#[test]
fn life_cell_with_given_draws() {
    let around = vec![Cell::Life(10, 20, 30), Cell::Empty, Cell::Life(100, 110, 120)];
    assert_eq!(
        life_cell(Cell::Empty, &around, true, true, 1, (1, -1, 2)),
        Cell::Life(101, 109, 122)
    );
    assert_eq!(
        life_cell(Cell::Life(5, 5, 5), &around, true, true, 0, (0, 0, 0)),
        Cell::Life(10, 20, 30)
    );
    // No spawn draw: the cell is carried over.
    assert_eq!(life_cell(Cell::Empty, &around, true, false, 1, (1, 1, 1)), Cell::Empty);
    // The death branch changes nothing.
    assert_eq!(
        life_cell(Cell::Life(5, 5, 5), &around, false, true, 1, (1, 1, 1)),
        Cell::Life(5, 5, 5)
    );
    // Walls are static.
    assert_eq!(life_cell(Cell::Wall, &around, true, true, 1, (1, 1, 1)), Cell::Wall);
    // Nobody to spawn from.
    assert_eq!(life_cell(Cell::Empty, &vec![Cell::Empty; 8], true, true, 0, (1, 1, 1)), Cell::Empty);
}

#[test]
fn forced_spawn_takes_the_color_of_a_living_neighbor() {
    let a = (40, 50, 60);
    let b = (200, 210, 220);
    for _ in 0..200 {
        let mut grid = Grid::new(3, 3);
        grid.set_cell(1, 1, Cell::Life(120, 120, 120));
        grid.set_cell(0, 0, Cell::Life(a.0, a.1, a.2));
        grid.set_cell(2, 2, Cell::Life(b.0, b.1, b.2));
        let next = grid.life_step(PROBABILITY_SCALE, PROBABILITY_SCALE);
        match next.cell_at(1, 1) {
            Cell::Life(r, g, bl) => {
                assert!(within_two(a, (r, g, bl)) || within_two(b, (r, g, bl)));
            }
            other => panic!("the centre became {:?}", other),
        }
        // The corners have the centre as their only living neighbour.
        for (row, col) in [(0, 0), (2, 2), (0, 1), (1, 0)] {
            match next.cell_at(row, col) {
                Cell::Life(r, g, bl) => assert!(within_two((120, 120, 120), (r, g, bl))
                    || within_two(a, (r, g, bl))
                    || within_two(b, (r, g, bl))),
                other => panic!("a cell next to life became {:?}", other),
            }
        }
        // Cells without a living neighbour do not exist on this grid, and
        // nothing dies.
        assert!(matches!(next.cell_at(0, 2), Cell::Life(_, _, _)));
    }
}

#[test]
fn forced_spawn_picks_both_neighbors_over_time() {
    let around = vec![Cell::Life(40, 40, 40), Cell::Life(200, 200, 200)];
    let mut low = false;
    let mut high = false;
    for _ in 0..500 {
        match life_cell_randomly(Cell::Empty, &around, PROBABILITY_SCALE, PROBABILITY_SCALE) {
            Cell::Life(r, _, _) if (38..=42).contains(&r) => low = true,
            Cell::Life(r, _, _) if (198..=202).contains(&r) => high = true,
            other => panic!("unexpected cell {:?}", other),
        }
    }
    assert!(low && high);
}

#[test]
fn no_spawn_rate_leaves_the_grid_unchanged() {
    let mut grid = Grid::new(3, 3);
    grid.set_cell(1, 1, Cell::Life(120, 120, 120));
    grid.set_cell(0, 1, Cell::Wall);
    let next = grid.life_step(SURVIVAL_RATE, 0);
    for row in 0..3 {
        for col in 0..3 {
            assert_eq!(next.cell_at(row, col), grid.cell_at(row, col));
        }
    }
}

#[test]
fn walls_and_living_cells_never_vanish() {
    let mut grid = Grid::new(4, 4);
    grid.set_cell(1, 1, Cell::Life(120, 120, 120));
    grid.set_cell(0, 0, Cell::Wall);
    grid.set_cell(1, 2, Cell::Wall);
    for _ in 0..50 {
        let next = grid.life_step(0, PROBABILITY_SCALE);
        assert_eq!(next.cell_at(0, 0), Cell::Wall);
        assert_eq!(next.cell_at(1, 2), Cell::Wall);
        // One living neighbour is a threat, and nothing is spared: the
        // death branch leaves every cell as it was.
        assert_eq!(next.cell_at(1, 1), Cell::Life(120, 120, 120));
        assert_eq!(next.cell_at(2, 2), Cell::Empty);
    }
}

#[test]
fn block_counts_round_up() {
    assert_eq!(block_count(10, 1), 10);
    assert_eq!(block_count(10, 3), 4);
    assert_eq!(block_count(9, 3), 3);
    assert_eq!(block_count(2, 5), 1);
    assert_eq!(block_count(0, 5), 0);
}

#[test]
fn seeded_from_fills_whole_blocks() {
    let grid = Grid::new(5, 3);
    // Blocks of side 2: three across, two down.
    let walls = vec![true, false, true, false, true, false];
    let next = grid.seeded_from(2, &walls);
    let rows = [
        [true, true, false, false, true],
        [true, true, false, false, true],
        [false, false, true, true, false],
    ];
    for row in 0..3 {
        for col in 0..5 {
            let expected = if rows[row][col] { Cell::Wall } else { Cell::Empty };
            assert_eq!(next.cell_at(row, col), expected);
        }
    }
}

#[test]
fn density_zero_seeds_no_wall() {
    for density in [0, -1, -PROBABILITY_SCALE, i64::MIN] {
        let mut grid = Grid::from_cells(20, 20, vec![Cell::Wall; 400]).unwrap();
        grid.reseed(density, 1);
        for row in 0..20 {
            for col in 0..20 {
                assert_eq!(grid.cell_at(row, col), Cell::Empty);
            }
        }
    }
}

#[test]
fn density_one_seeds_only_walls() {
    for density in [PROBABILITY_SCALE, PROBABILITY_SCALE + 1, i64::MAX] {
        let mut grid = Grid::new(20, 20);
        grid.reseed(density, 3);
        assert_eq!((grid.width(), grid.height()), (20, 20));
        for row in 0..20 {
            for col in 0..20 {
                assert_eq!(grid.cell_at(row, col), Cell::Wall);
            }
        }
    }
}

#[test]
fn density_half_seeds_about_half_walls() {
    let mut grid = Grid::new(100, 100);
    grid.reseed(PROBABILITY_SCALE / 2, 1);
    let mut walls = 0;
    for row in 0..100 {
        for col in 0..100 {
            match grid.cell_at(row, col) {
                Cell::Wall => walls += 1,
                Cell::Empty => {}
                other => panic!("seeding left {:?}", other),
            }
        }
    }
    assert!((4700..=5300).contains(&walls));
}

#[test]
fn zoomed_seed_is_uniform_in_each_block() {
    let mut grid = Grid::new(10, 7);
    grid.reseed(PROBABILITY_SCALE / 2, 3);
    for row in 0..7 {
        for col in 0..10 {
            let corner = grid.cell_at(row / 3 * 3, col / 3 * 3);
            assert_eq!(grid.cell_at(row, col), corner);
        }
    }
}
