use life::universe::{next_cell_state, Cell, Universe};

/// Builds a width x height grid that is all `Dead` except the listed
/// (row, column) positions.
fn grid_with_alive(width: u32, height: u32, alive: &[(u32, u32)]) -> Universe {
    let mut cells: Vec<Cell> = Vec::new();
    for r in 0..height {
        for c in 0..width {
            if alive.contains(&(r, c)) {
                cells.push(Cell::Alive);
            } else {
                cells.push(Cell::Dead);
            }
        }
    }
    Universe::from_cells(width, height, cells).unwrap()
}

/// The set of live (row, column) positions, in row-major order.
fn alive_positions(u: &Universe) -> Vec<(u32, u32)> {
    u.current_cells()
        .into_iter()
        .filter(|&(_, _, s)| s == Cell::Alive)
        .map(|(r, c, _)| (r, c))
        .collect()
}

#[test]
fn seeded_pattern_matches_rule() {
    let u = Universe::new(4, 4);
    let cells = u.current_cells();
    assert_eq!(cells.len(), 16);
    for (i, &(_, _, state)) in cells.iter().enumerate() {
        let expected = if i % 2 == 0 || i % 7 == 0 {
            Cell::Alive
        } else {
            Cell::Dead
        };
        assert_eq!(state, expected, "cell {} of the seeded pattern", i);
    }
}

#[test]
fn construction_is_deterministic() {
    let a = Universe::construct(6, 5).unwrap();
    let b = Universe::construct(6, 5).unwrap();
    assert_eq!(a.current_cells(), b.current_cells());
}

#[test]
fn construct_rejects_zero_dimensions() {
    assert!(Universe::construct(0, 5).is_none());
    assert!(Universe::construct(5, 0).is_none());
    assert!(Universe::construct(0, 0).is_none());
}

#[test]
fn construct_rejects_oversized_product() {
    assert!(Universe::construct(u32::MAX, 2).is_none());
    assert!(Universe::construct(2, u32::MAX).is_none());
    assert!(Universe::construct(65536, 65536).is_none());
}

#[test]
fn from_cells_rejects_mismatched_length() {
    let cells = vec![Cell::Dead; 5];
    assert!(Universe::from_cells(3, 2, cells).is_none());
    let cells = vec![Cell::Dead; 6];
    assert!(Universe::from_cells(3, 2, cells).is_some());
    let cells = vec![];
    assert!(Universe::from_cells(0, 0, cells).is_none());
}

#[test]
fn current_cells_is_row_major() {
    let u = Universe::construct(3, 2).unwrap();
    let cells = u.current_cells();
    assert_eq!(cells.len(), 6);
    for (i, &(r, c, _)) in cells.iter().enumerate() {
        assert_eq!(r, i as u32 / 3);
        assert_eq!(c, i as u32 % 3);
    }
}

#[test]
fn get_index_is_row_major() {
    let u = Universe::construct(7, 5).unwrap();
    assert_eq!(u.get_index(0, 0), 0);
    assert_eq!(u.get_index(2, 3), 17);
    assert_eq!(u.get_index(4, 6), 34);
}

#[test]
fn dimensions_are_kept() {
    let mut u = Universe::construct(6, 4).unwrap();
    assert_eq!(u.width(), 6);
    assert_eq!(u.height(), 4);
    u.tick();
    assert_eq!(u.width(), 6);
    assert_eq!(u.height(), 4);
}

#[test]
fn left_neighbor_of_column_zero_wraps_to_last_column() {
    // On a width-5 grid the only live cell sits in column 4; it must be
    // seen as the left neighbor of a cell in column 0.
    let u = grid_with_alive(5, 3, &[(1, 4)]);
    assert_eq!(u.live_neighbor_count(1, 0), 1);
    assert_eq!(u.live_neighbor_count(0, 0), 1);
    assert_eq!(u.live_neighbor_count(2, 0), 1);
    assert_eq!(u.live_neighbor_count(1, 2), 0);
}

#[test]
fn top_neighbor_of_row_zero_wraps_to_last_row() {
    let u = grid_with_alive(5, 3, &[(2, 1)]);
    assert_eq!(u.live_neighbor_count(0, 1), 1);
    assert_eq!(u.live_neighbor_count(0, 0), 1);
    assert_eq!(u.live_neighbor_count(0, 2), 1);
    assert_eq!(u.live_neighbor_count(1, 3), 0);
}

#[test]
fn neighbor_count_stays_within_bounds() {
    let u = Universe::construct(5, 5).unwrap();
    for r in 0..5 {
        for c in 0..5 {
            assert!(u.live_neighbor_count(r, c) <= 8);
        }
    }
}

#[test]
fn one_by_one_grid_is_its_own_eight_neighbors() {
    // Every one of the 8 wrapped lookups lands on the single cell.
    let u = grid_with_alive(1, 1, &[(0, 0)]);
    assert_eq!(u.live_neighbor_count(0, 0), 8);
    let empty = grid_with_alive(1, 1, &[]);
    assert_eq!(empty.live_neighbor_count(0, 0), 0);
}

#[test]
fn rule_table_is_exact() {
    for n in 0..=8u8 {
        let from_alive = next_cell_state(Cell::Alive, n);
        let from_dead = next_cell_state(Cell::Dead, n);
        if n == 2 || n == 3 {
            assert_eq!(from_alive, Cell::Alive, "alive cell with {} neighbors", n);
        } else {
            assert_eq!(from_alive, Cell::Dead, "alive cell with {} neighbors", n);
        }
        if n == 3 {
            assert_eq!(from_dead, Cell::Alive, "dead cell with {} neighbors", n);
        } else {
            assert_eq!(from_dead, Cell::Dead, "dead cell with {} neighbors", n);
        }
    }
}

#[test]
fn blinker_flips_from_horizontal_to_vertical() {
    // Width 4, height 4, all Dead except (1,1),(1,2),(1,3).
    let mut u = grid_with_alive(4, 4, &[(1, 1), (1, 2), (1, 3)]);
    u.tick();
    assert_eq!(alive_positions(&u), vec![(0, 2), (1, 2), (2, 2)]);
}

#[test]
fn tick_reads_only_the_previous_generation() {
    // If tick mutated the grid while still counting neighbors, the
    // newly born cell at (0,2) would be seen by (1,1) and keep it
    // alive; the correct result has (1,1) dead.
    let mut u = grid_with_alive(4, 4, &[(1, 1), (1, 2), (1, 3)]);
    u.tick();
    assert_eq!(u.cell(1, 1), Cell::Dead);
    assert_eq!(u.cell(1, 3), Cell::Dead);
    u.tick();
    // A blinker has period 2: the original pattern returns.
    assert_eq!(alive_positions(&u), vec![(1, 1), (1, 2), (1, 3)]);
}

#[test]
fn isolated_block_is_steady() {
    let mut u = grid_with_alive(4, 4, &[(1, 1), (1, 2), (2, 1), (2, 2)]);
    let expected = alive_positions(&u);
    for _ in 0..5 {
        u.tick();
        assert_eq!(alive_positions(&u), expected);
    }
}

#[test]
fn block_wrapping_around_the_corner_is_steady() {
    // The 2x2 block sits on the corner of a 4x4 torus: its rows are
    // {3, 0} and its columns are {3, 0}.
    let mut u = grid_with_alive(4, 4, &[(0, 0), (0, 3), (3, 0), (3, 3)]);
    let expected = alive_positions(&u);
    for _ in 0..4 {
        u.tick();
        assert_eq!(alive_positions(&u), expected);
    }
}

#[test]
fn block_on_a_three_by_three_grid_is_steady() {
    let mut u = grid_with_alive(3, 3, &[(0, 0), (0, 1), (1, 0), (1, 1)]);
    let expected = alive_positions(&u);
    for _ in 0..3 {
        u.tick();
        assert_eq!(alive_positions(&u), expected);
    }
}

#[test]
fn fully_alive_two_by_two_grid_dies_of_wrapped_overcrowding() {
    // On a 2x2 torus every wrapped lookup of a cell's 8 neighbor
    // offsets lands on an alive cell, so each cell counts 8 live
    // neighbors and the whole grid dies: the smallest grids are the
    // one place where a 2x2 block is not steady.
    let mut u = grid_with_alive(2, 2, &[(0, 0), (0, 1), (1, 0), (1, 1)]);
    assert_eq!(u.live_neighbor_count(0, 0), 8);
    u.tick();
    assert_eq!(alive_positions(&u), vec![]);
}

#[test]
fn crowded_cell_dies_and_empty_grid_stays_empty() {
    // The single live cell of a 1x1 torus counts itself 8 times and
    // dies of overpopulation; afterwards nothing is ever born.
    let mut u = grid_with_alive(1, 1, &[(0, 0)]);
    u.tick();
    assert_eq!(u.cell(0, 0), Cell::Dead);
    u.tick();
    assert_eq!(u.cell(0, 0), Cell::Dead);
}

#[test]
fn lonely_cells_die_out() {
    let mut u = grid_with_alive(5, 5, &[(0, 0), (2, 2)]);
    u.tick();
    assert_eq!(alive_positions(&u), vec![]);
}
