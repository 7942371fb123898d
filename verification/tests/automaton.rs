use game_of_life::cell::Cell;
use game_of_life::engine::AutomatonEngine;
use game_of_life::error::LifeError;
use game_of_life::grid::Grid;

fn alive_cells(engine: &AutomatonEngine) -> Vec<(u32, u32)> {
    let mut out = Vec::new();
    for row in 0..engine.height() {
        for col in 0..engine.width() {
            if engine.cell_at(row, col) == Cell::Alive {
                out.push((row, col));
            }
        }
    }
    out
}

#[test]
fn cell_toggle_flips_between_the_two_states() {
    let mut c = Cell::Dead;
    c.toggle();
    assert_eq!(c, Cell::Alive);
    c.toggle();
    assert_eq!(c, Cell::Dead);
}

#[test]
fn grid_rejects_zero_dimensions() {
    assert_eq!(Grid::new(0, 5).err(), Some(LifeError::InvalidDimension));
    assert_eq!(Grid::new(5, 0).err(), Some(LifeError::InvalidDimension));
    assert_eq!(Grid::new(0, 0).err(), Some(LifeError::InvalidDimension));
    assert!(Grid::new(1, 1).is_ok());
}

#[test]
fn engine_rejects_zero_dimensions() {
    assert!(AutomatonEngine::new(0, 3).is_err());
    assert!(AutomatonEngine::new(3, 0).is_err());
}

#[test]
fn new_grid_is_all_dead() {
    let g = Grid::new(4, 3).unwrap();
    assert_eq!(g.width(), 4);
    assert_eq!(g.height(), 3);
    assert_eq!(g.cells().len(), 12);
    for row in 0..3 {
        for col in 0..4 {
            assert_eq!(g.get(row, col), Cell::Dead);
        }
    }
}

#[test]
fn grid_indexing_is_row_major() {
    let g = Grid::new(7, 5).unwrap();
    assert_eq!(g.index_of(0, 0), 0);
    assert_eq!(g.index_of(0, 6), 6);
    assert_eq!(g.index_of(1, 0), 7);
    assert_eq!(g.index_of(4, 6), 34);
}

#[test]
fn grid_set_and_get_roundtrip() {
    let mut g = Grid::new(3, 3).unwrap();
    g.set(1, 2, Cell::Alive);
    assert_eq!(g.get(1, 2), Cell::Alive);
    assert_eq!(g.get(2, 1), Cell::Dead);
    g.set(1, 2, Cell::Dead);
    assert_eq!(g.get(1, 2), Cell::Dead);
}

#[test]
fn step_of_all_dead_grid_stays_all_dead() {
    let mut engine = AutomatonEngine::new(4, 4).unwrap();
    engine.step();
    assert!(alive_cells(&engine).is_empty());
}

#[test]
fn isolated_cell_dies_after_one_step() {
    let mut engine = AutomatonEngine::new(5, 5).unwrap();
    engine.toggle_cell(2, 2);
    assert_eq!(alive_cells(&engine), vec![(2, 2)]);
    engine.step();
    assert!(alive_cells(&engine).is_empty());
}

#[test]
fn two_by_two_block_is_stable() {
    let mut engine = AutomatonEngine::new(6, 6).unwrap();
    for (r, c) in [(2, 2), (2, 3), (3, 2), (3, 3)] {
        engine.toggle_cell(r, c);
    }
    let before = alive_cells(&engine);
    engine.step();
    assert_eq!(alive_cells(&engine), before);
    engine.step();
    assert_eq!(alive_cells(&engine), before);
}

#[test]
fn blinker_oscillates_with_period_two() {
    let mut engine = AutomatonEngine::new(5, 5).unwrap();
    for (r, c) in [(2, 1), (2, 2), (2, 3)] {
        engine.toggle_cell(r, c);
    }
    engine.step();
    assert_eq!(alive_cells(&engine), vec![(1, 2), (2, 2), (3, 2)]);
    engine.step();
    assert_eq!(alive_cells(&engine), vec![(2, 1), (2, 2), (2, 3)]);
}

#[test]
fn toggling_twice_restores_the_cell() {
    let mut engine = AutomatonEngine::new(5, 5).unwrap();
    engine.toggle_cell(0, 4);
    assert_eq!(engine.cell_at(0, 4), Cell::Alive);
    engine.toggle_cell(0, 4);
    assert_eq!(engine.cell_at(0, 4), Cell::Dead);
    engine.toggle_cell(3, 3);
    engine.toggle_cell(3, 3);
    assert_eq!(engine.cell_at(3, 3), Cell::Dead);
    assert!(alive_cells(&engine).is_empty());
}

#[test]
fn single_cell_grid_does_not_count_itself() {
    let mut g = Grid::new(1, 1).unwrap();
    g.set(0, 0, Cell::Alive);
    assert_eq!(g.count_live_neighbors(0, 0), 0);
}

#[test]
fn single_cell_grid_cell_dies_on_step() {
    let mut engine = AutomatonEngine::new(1, 1).unwrap();
    engine.toggle_cell(0, 0);
    engine.step();
    assert_eq!(engine.cell_at(0, 0), Cell::Dead);
}

#[test]
fn neighbor_count_wraps_around_the_edges() {
    let mut g = Grid::new(5, 5).unwrap();
    g.set(0, 0, Cell::Alive);
    // Opposite corner: all of (4, 4)'s diagonal wraps reach (0, 0) once.
    assert_eq!(g.count_live_neighbors(4, 4), 1);
    assert_eq!(g.count_live_neighbors(4, 0), 1);
    assert_eq!(g.count_live_neighbors(0, 4), 1);
    assert_eq!(g.count_live_neighbors(1, 1), 1);
    assert_eq!(g.count_live_neighbors(2, 2), 0);
}

#[test]
fn neighbor_count_reaches_eight() {
    let mut g = Grid::new(5, 5).unwrap();
    for r in 1..4 {
        for c in 1..4 {
            g.set(r, c, Cell::Alive);
        }
    }
    assert_eq!(g.count_live_neighbors(2, 2), 8);
}

#[test]
fn clear_kills_every_cell_and_keeps_dimensions() {
    let mut engine = AutomatonEngine::new(6, 4).unwrap();
    engine.toggle_cell(0, 0);
    engine.toggle_cell(3, 5);
    engine.clear();
    assert_eq!(engine.width(), 6);
    assert_eq!(engine.height(), 4);
    assert!(alive_cells(&engine).is_empty());
}

#[test]
fn cells_view_is_row_major() {
    let mut engine = AutomatonEngine::new(3, 2).unwrap();
    engine.toggle_cell(1, 2);
    let cells = engine.cells();
    assert_eq!(cells.len(), 6);
    assert_eq!(cells[5], Cell::Alive);
    assert_eq!(cells[2], Cell::Dead);
}
