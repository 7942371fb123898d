use game_of_life::cell::Cell;
use game_of_life::engine::AutomatonEngine;
use game_of_life::error::LifeError;
use game_of_life::pattern::{import_prefab, Prefab};
use game_of_life::placement::{target_origin, PlacementPlanner, PlacementState};

fn rows(rs: &[&str]) -> Vec<String> {
    rs.iter().map(|s| s.to_string()).collect()
}

fn prefab(rs: &[&str]) -> Prefab {
    import_prefab(&rows(rs)).unwrap()
}

fn alive_cells(engine: &AutomatonEngine) -> Vec<(u32, u32)> {
    let mut out = Vec::new();
    for row in 0..engine.height() {
        for col in 0..engine.width() {
            if engine.cell_at(row, col) == Cell::Alive {
                out.push((row, col));
            }
        }
    }
    out
}

#[test]
fn import_with_mismatched_rows_fails() {
    let r = import_prefab(&rows(&["##", "#"]));
    assert_eq!(r.err(), Some(LifeError::MalformedPattern));
}

#[test]
fn import_with_no_rows_fails() {
    let r = import_prefab(&rows(&[]));
    assert_eq!(r.err(), Some(LifeError::EmptyPattern));
}

#[test]
fn import_with_zero_length_rows_fails() {
    let r = import_prefab(&rows(&["", ""]));
    assert_eq!(r.err(), Some(LifeError::EmptyPattern));
}

#[test]
fn import_parses_markers_row_major() {
    let p = prefab(&["#.", ".#"]);
    assert_eq!(p.width(), 2);
    assert_eq!(p.height(), 2);
    assert_eq!(p.cell_at(0, 0), Cell::Alive);
    assert_eq!(p.cell_at(0, 1), Cell::Dead);
    assert_eq!(p.cell_at(1, 0), Cell::Dead);
    assert_eq!(p.cell_at(1, 1), Cell::Alive);
}

#[test]
fn import_treats_every_non_hash_marker_as_dead() {
    let p = prefab(&["# x"]);
    assert_eq!(p.cell_at(0, 0), Cell::Alive);
    assert_eq!(p.cell_at(0, 1), Cell::Dead);
    assert_eq!(p.cell_at(0, 2), Cell::Dead);
}

#[test]
fn odd_prefab_centering_floors() {
    // Anchor (5, 5) in half-cell units; a 3-wide prefab on a 10-wide grid
    // centers to origin 5 - 1 = 4.
    assert_eq!(target_origin(10, 3, 10), 4);
    // A fractional anchor of 5.5 still floors for odd dimensions.
    assert_eq!(target_origin(11, 3, 10), 4);
}

#[test]
fn even_prefab_centering_rounds_half_up() {
    // Anchor 5 with a 2-wide prefab: round(5) - 1 = 4.
    assert_eq!(target_origin(10, 2, 10), 4);
    // Anchor 4.5 rounds up to 5 for even dimensions, giving 5 - 1 = 4,
    // where an odd dimension would floor 4.5 to 4, giving 3.
    assert_eq!(target_origin(9, 2, 10), 4);
    assert_eq!(target_origin(9, 3, 10), 3);
}

#[test]
fn origin_is_clamped_to_the_last_cell() {
    assert_eq!(target_origin(40, 1, 10), 9);
    assert_eq!(target_origin(200, 3, 10), 9);
}

#[test]
fn origin_has_no_lower_clamp() {
    // Anchor (0, 0) with a 3-wide prefab: 0 - 1 = -1.
    assert_eq!(target_origin(0, 3, 10), -1);
}

#[test]
fn preview_centers_an_odd_prefab() {
    let mut planner = PlacementPlanner::new();
    planner.begin_placement(prefab(&["###", "###", "###"]));
    let v = planner.preview_placement(10, 10, 10, 10).unwrap();
    let mut expected = Vec::new();
    for r in 4..7 {
        for c in 4..7 {
            expected.push((r, c));
        }
    }
    assert_eq!(v, expected);
}

#[test]
fn preview_centers_an_even_prefab() {
    let mut planner = PlacementPlanner::new();
    planner.begin_placement(prefab(&["##", "##"]));
    let v = planner.preview_placement(10, 10, 10, 10).unwrap();
    assert_eq!(v, vec![(4, 4), (4, 5), (5, 4), (5, 5)]);
}

#[test]
fn preview_skips_dead_prefab_cells() {
    let mut planner = PlacementPlanner::new();
    planner.begin_placement(prefab(&[".#.", "###", ".#."]));
    let v = planner.preview_placement(10, 10, 10, 10).unwrap();
    assert_eq!(v, vec![(4, 5), (5, 4), (5, 5), (5, 6), (6, 5)]);
}

#[test]
fn preview_drops_out_of_bounds_targets() {
    let mut planner = PlacementPlanner::new();
    planner.begin_placement(prefab(&["###", "###", "###"]));
    // Anchor (0, 0): origin (-1, -1); only the in-bounds quarter survives.
    let v = planner.preview_placement(0, 0, 10, 10).unwrap();
    assert_eq!(v, vec![(0, 0), (0, 1), (1, 0), (1, 1)]);
}

#[test]
fn preview_does_not_touch_the_grid() {
    let mut engine = AutomatonEngine::new(10, 10).unwrap();
    engine.toggle_cell(4, 4);
    let before = alive_cells(&engine);
    let mut planner = PlacementPlanner::new();
    planner.begin_placement(prefab(&["###", "###", "###"]));
    planner.preview_placement(10, 10, 10, 10).unwrap();
    assert_eq!(alive_cells(&engine), before);
}

#[test]
fn commit_toggles_only_in_bounds_cells() {
    let mut engine = AutomatonEngine::new(10, 10).unwrap();
    let mut planner = PlacementPlanner::new();
    planner.begin_placement(prefab(&["###", "###", "###"]));
    planner.preview_placement(0, 0, 10, 10).unwrap();
    let toggled = planner.commit_placement(&mut engine).unwrap();
    assert_eq!(toggled, vec![(0, 0), (0, 1), (1, 0), (1, 1)]);
    assert_eq!(alive_cells(&engine), vec![(0, 0), (0, 1), (1, 0), (1, 1)]);
}

#[test]
fn commit_toggles_an_already_alive_cell_to_dead() {
    let mut engine = AutomatonEngine::new(10, 10).unwrap();
    engine.toggle_cell(4, 4);
    let mut planner = PlacementPlanner::new();
    planner.begin_placement(prefab(&["#"]));
    let v = planner.preview_placement(8, 8, 10, 10).unwrap();
    assert_eq!(v, vec![(4, 4)]);
    planner.commit_placement(&mut engine).unwrap();
    assert_eq!(engine.cell_at(4, 4), Cell::Dead);
}

#[test]
fn placement_without_a_prefab_fails() {
    let mut engine = AutomatonEngine::new(10, 10).unwrap();
    let mut planner = PlacementPlanner::new();
    assert_eq!(
        planner.preview_placement(10, 10, 10, 10).err(),
        Some(LifeError::NoActivePrefab)
    );
    assert_eq!(
        planner.commit_placement(&mut engine).err(),
        Some(LifeError::NoActivePrefab)
    );
    assert!(alive_cells(&engine).is_empty());
}

#[test]
fn placement_walks_the_state_machine() {
    let mut engine = AutomatonEngine::new(10, 10).unwrap();
    let mut planner = PlacementPlanner::new();
    assert_eq!(planner.state(), PlacementState::Idle);
    planner.begin_placement(prefab(&["#"]));
    assert_eq!(planner.state(), PlacementState::PrefabHeld);
    planner.preview_placement(10, 10, 10, 10).unwrap();
    assert_eq!(planner.state(), PlacementState::Previewing);
    planner.commit_placement(&mut engine).unwrap();
    assert_eq!(planner.state(), PlacementState::Idle);
    planner.begin_placement(prefab(&["#"]));
    planner.cancel_placement();
    assert_eq!(planner.state(), PlacementState::Idle);
    assert!(planner.preview_cells().is_empty());
}

#[test]
fn commit_straight_after_begin_toggles_nothing() {
    let mut engine = AutomatonEngine::new(10, 10).unwrap();
    let mut planner = PlacementPlanner::new();
    planner.begin_placement(prefab(&["#"]));
    let toggled = planner.commit_placement(&mut engine).unwrap();
    assert!(toggled.is_empty());
    assert!(alive_cells(&engine).is_empty());
    assert_eq!(planner.state(), PlacementState::Idle);
}

#[test]
fn a_new_preview_replaces_the_previous_one() {
    let mut planner = PlacementPlanner::new();
    planner.begin_placement(prefab(&["#"]));
    let first = planner.preview_placement(2, 2, 10, 10).unwrap();
    assert_eq!(first, vec![(1, 1)]);
    let second = planner.preview_placement(12, 12, 10, 10).unwrap();
    assert_eq!(second, vec![(6, 6)]);
    assert_eq!(planner.preview_cells().as_slice(), &[(6, 6)]);
}
