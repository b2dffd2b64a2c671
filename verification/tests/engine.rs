use life_engine::Cell;
use life_engine::CellFormFactor;
use life_engine::LifeError;
use life_engine::LifeRules;
use life_engine::Universe;

fn dead_grid(w: u32, h: u32, form: CellFormFactor) -> Universe {
    Universe::new("3", "23", w, h, form, vec![Cell::Dead; (w * h) as usize]).unwrap()
}

fn alive_grid(w: u32, h: u32, form: CellFormFactor) -> Universe {
    Universe::new("3", "23", w, h, form, vec![Cell::Alive; (w * h) as usize]).unwrap()
}

#[test]
fn buffer_size_after_construction() {
    let u = dead_grid(6, 6, CellFormFactor::Square);
    assert_eq!(u.get_cells().len(), 36);
    let u = dead_grid(5, 3, CellFormFactor::Hexagon);
    assert_eq!(u.get_cells().len(), 15);
}

#[test]
fn buffer_size_after_restart() {
    let mut u = dead_grid(6, 6, CellFormFactor::Square);
    u.restart("23", "3", 4, 3, CellFormFactor::Triangle, vec![Cell::Alive; 12])
        .unwrap();
    assert_eq!(u.get_cells().len(), 12);
    assert_eq!(u.width(), 4);
    assert_eq!(u.height(), 3);
    assert_eq!(u.cell_form_factor(), CellFormFactor::Triangle);
    assert!(u.get_cells().iter().all(|c| *c == Cell::Alive));
}

#[test]
fn buffer_size_after_clear_reconciles_dimensions() {
    let mut u = dead_grid(2, 2, CellFormFactor::Square);
    u.set_width(5);
    u.set_height(4);
    // The dimension setters deliberately leave the buffer untouched ...
    assert_eq!(u.get_cells().len(), 4);
    assert_eq!(u.width(), 5);
    assert_eq!(u.height(), 4);
    // ... and clearing reallocates it to the stored dimensions.
    u.clear_universe();
    assert_eq!(u.get_cells().len(), 20);
    assert!(u.get_cells().iter().all(|c| *c == Cell::Dead));
}

#[test]
fn tick_is_deterministic() {
    let seed: Vec<Cell> = (0..30)
        .map(|i| if i % 3 == 0 || i % 7 == 1 { Cell::Alive } else { Cell::Dead })
        .collect();
    let mut a = Universe::new("36", "23", 6, 5, CellFormFactor::Square, seed.clone()).unwrap();
    let mut b = Universe::new("36", "23", 6, 5, CellFormFactor::Square, seed).unwrap();
    a.tick();
    b.tick();
    assert_eq!(a.get_cells(), b.get_cells());
    a.tick();
    b.tick();
    assert_eq!(a.get_cells(), b.get_cells());
}

#[test]
fn rules_round_trip() {
    let rules = LifeRules::parse("3", "23").unwrap();
    assert_eq!(rules.born_digits(), "3");
    assert_eq!(rules.survives_digits(), "23");
    assert_eq!(rules.get_born(), &vec![3u8]);
    assert_eq!(rules.get_survives(), &vec![2u8, 3u8]);
}

#[test]
fn rules_round_trip_keeps_order_and_duplicates() {
    let rules = LifeRules::parse("3353", "00921").unwrap();
    assert_eq!(rules.born_digits(), "3353");
    assert_eq!(rules.survives_digits(), "00921");
}

#[test]
fn rules_round_trip_through_universe() {
    let u = dead_grid(3, 3, CellFormFactor::Square);
    assert_eq!(u.born_rules(), "3");
    assert_eq!(u.survives_rules(), "23");
}

#[test]
fn invalid_rule_digit_is_a_recoverable_error() {
    assert_eq!(LifeRules::parse("3a", "23").unwrap_err(), LifeError::InvalidRuleSpec);
    assert_eq!(LifeRules::parse("3", "2 3").unwrap_err(), LifeError::InvalidRuleSpec);
    let r = Universe::new("x", "23", 2, 2, CellFormFactor::Square, vec![Cell::Dead; 4]);
    assert_eq!(r.unwrap_err(), LifeError::InvalidRuleSpec);
}

#[test]
fn set_rules_replaces_only_the_rules() {
    let mut u = dead_grid(3, 2, CellFormFactor::Hexagon);
    u.tick();
    u.set_rules("01", "8").unwrap();
    assert_eq!(u.born_rules(), "01");
    assert_eq!(u.survives_rules(), "8");
    assert_eq!(u.width(), 3);
    assert_eq!(u.height(), 2);
    assert_eq!(u.generation(), 1);
    assert_eq!(u.cell_form_factor(), CellFormFactor::Hexagon);
}

#[test]
fn set_rules_failure_leaves_rules_unchanged() {
    let mut u = dead_grid(3, 2, CellFormFactor::Square);
    assert_eq!(u.set_rules("4", "q").unwrap_err(), LifeError::InvalidRuleSpec);
    assert_eq!(u.born_rules(), "3");
    assert_eq!(u.survives_rules(), "23");
}

#[test]
fn toggle_involution() {
    let mut u = dead_grid(4, 4, CellFormFactor::Square);
    let before: Vec<Cell> = u.get_cells().to_vec();
    assert_eq!(u.cell_toggle(2, 1).unwrap(), Cell::Alive);
    // Exactly one cell differs after one toggle.
    let mid: Vec<Cell> = u.get_cells().to_vec();
    let diffs = before.iter().zip(mid.iter()).filter(|(a, b)| a != b).count();
    assert_eq!(diffs, 1);
    assert_eq!(mid[(2 + 1 * 4) as usize], Cell::Alive);
    // The second toggle restores the original buffer.
    assert_eq!(u.cell_toggle(2, 1).unwrap(), Cell::Dead);
    assert_eq!(u.get_cells(), &before[..]);
}

#[test]
fn toggle_out_of_range_is_reported() {
    let mut u = dead_grid(4, 4, CellFormFactor::Square);
    assert_eq!(u.cell_toggle(4, 0).unwrap_err(), LifeError::OutOfBounds);
    assert_eq!(u.cell_toggle(0, 4).unwrap_err(), LifeError::OutOfBounds);
    assert!(u.get_cells().iter().all(|c| *c == Cell::Dead));
}

#[test]
fn set_cells_out_of_range_is_reported() {
    let mut u = dead_grid(4, 4, CellFormFactor::Square);
    let r = u.set_cells(&[(1, 1), (4, 1)]);
    assert_eq!(r.unwrap_err(), LifeError::OutOfBounds);
    assert!(u.get_cells().iter().all(|c| *c == Cell::Dead));
}

#[test]
fn block_is_a_still_life() {
    let mut u = dead_grid(6, 6, CellFormFactor::Square);
    u.set_cells(&[(2, 2), (3, 2), (2, 3), (3, 3)]).unwrap();
    let block: Vec<Cell> = u.get_cells().to_vec();
    assert_eq!(block.iter().filter(|c| **c == Cell::Alive).count(), 4);
    for _ in 0..5 {
        u.tick();
        assert_eq!(u.get_cells(), &block[..]);
    }
}

#[test]
fn blinker_oscillates() {
    let mut u = dead_grid(5, 5, CellFormFactor::Square);
    u.set_cells(&[(1, 2), (2, 2), (3, 2)]).unwrap();
    let horizontal: Vec<Cell> = u.get_cells().to_vec();
    u.tick();
    let mut expected = vec![Cell::Dead; 25];
    for (w, h) in [(2u32, 1u32), (2, 2), (2, 3)] {
        expected[(w + h * 5) as usize] = Cell::Alive;
    }
    assert_eq!(u.get_cells(), &expected[..]);
    u.tick();
    assert_eq!(u.get_cells(), &horizontal[..]);
}

#[test]
fn square_count_bounds_and_values() {
    let u = alive_grid(4, 4, CellFormFactor::Square);
    for h in 0..4 {
        for w in 0..4 {
            assert_eq!(u.live_neighbour_count_square(w, h), 8);
        }
    }
    let u = dead_grid(4, 4, CellFormFactor::Square);
    assert_eq!(u.live_neighbour_count_square(2, 2), 0);
    let mut u = dead_grid(4, 4, CellFormFactor::Square);
    u.set_cells(&[(1, 1)]).unwrap();
    assert_eq!(u.live_neighbour_count_square(2, 2), 1);
    assert_eq!(u.live_neighbour_count_square(0, 0), 1);
    assert_eq!(u.live_neighbour_count_square(1, 1), 0);
}

#[test]
fn hexagon_count_bounds_and_values() {
    let u = alive_grid(4, 4, CellFormFactor::Hexagon);
    for h in 0..4 {
        for w in 0..4 {
            assert_eq!(u.live_neighbour_count_hexagon(w, h), 6);
        }
    }
    let u = dead_grid(4, 4, CellFormFactor::Hexagon);
    assert_eq!(u.live_neighbour_count_hexagon(1, 2), 0);
}

#[test]
fn triangle_count_bounds_and_values() {
    let u = alive_grid(4, 4, CellFormFactor::Triangle);
    for h in 0..4 {
        for w in 0..4 {
            assert_eq!(u.live_neighbour_count_triangle(w, h), 12);
        }
    }
    let u = dead_grid(4, 4, CellFormFactor::Triangle);
    assert_eq!(u.live_neighbour_count_triangle(3, 1), 0);
}

#[test]
fn all_dead_with_born_zero_fills_the_grid() {
    for form in [CellFormFactor::Square, CellFormFactor::Triangle, CellFormFactor::Hexagon] {
        let mut u = Universe::new("0", "23", 4, 4, form, vec![Cell::Dead; 16]).unwrap();
        u.tick();
        assert!(u.get_cells().iter().all(|c| *c == Cell::Alive));
    }
}

#[test]
fn generation_counter_counts_ticks() {
    let mut u = dead_grid(3, 3, CellFormFactor::Square);
    assert_eq!(u.generation(), 0);
    assert_eq!(u.tick(), 1);
    assert_eq!(u.tick(), 2);
    assert_eq!(u.tick(), 3);
    assert_eq!(u.generation(), 3);
    u.restart("3", "23", 3, 3, CellFormFactor::Square, vec![Cell::Dead; 9])
        .unwrap();
    assert_eq!(u.generation(), 0);
    assert_eq!(u.tick(), 1);
}

#[test]
fn degenerate_grid_is_defined_behaviour() {
    let mut u = Universe::new("3", "23", 0, 7, CellFormFactor::Square, Vec::new()).unwrap();
    assert_eq!(u.get_cells().len(), 0);
    assert_eq!(u.tick(), 1);
    assert_eq!(u.render_to_string(), "");
    let mut u = Universe::new("3", "23", 5, 0, CellFormFactor::Triangle, Vec::new()).unwrap();
    assert_eq!(u.tick(), 1);
    assert_eq!(u.render_to_string(), "");
}

#[test]
fn render_draws_one_line_per_row() {
    let mut u = dead_grid(3, 2, CellFormFactor::Square);
    u.set_cells(&[(0, 0), (2, 1)]).unwrap();
    assert_eq!(u.render_to_string(), "◼◻◻\n◻◻◼\n");
}

#[test]
fn cells_and_get_cells_agree() {
    let mut u = dead_grid(3, 3, CellFormFactor::Square);
    u.cell_toggle(1, 2).unwrap();
    assert_eq!(u.cells(), u.get_cells());
    assert_eq!(u.cells()[(1 + 2 * 3) as usize], Cell::Alive);
}

#[test]
fn toggle_returns_the_new_state() {
    let mut u = alive_grid(2, 2, CellFormFactor::Square);
    assert_eq!(u.cell_toggle(0, 0).unwrap(), Cell::Dead);
    assert_eq!(u.cell_toggle(0, 0).unwrap(), Cell::Alive);
}

#[test]
fn cell_value_projection() {
    assert_eq!(Cell::Dead.value(), 0);
    assert_eq!(Cell::Alive.value(), 1);
    let mut c = Cell::Dead;
    c.toggle();
    assert_eq!(c, Cell::Alive);
    c.toggle();
    assert_eq!(c, Cell::Dead);
}

#[test]
fn rules_new_from_digit_values() {
    let rules = LifeRules::new(vec![3], vec![2, 3]);
    assert!(rules.is_born(3));
    assert!(!rules.is_born(2));
    assert!(rules.is_survivor(2));
    assert!(rules.is_survivor(3));
    assert!(!rules.is_survivor(4));
    assert_eq!(rules.born_digits(), "3");
}

#[test]
fn rule_string_canonical_form() {
    let rules = LifeRules::parse("36", "125").unwrap();
    assert_eq!(rules.rule_string(), "B36/S125");
    let rules = LifeRules::parse("", "").unwrap();
    assert_eq!(rules.rule_string(), "B/S");
}

#[test]
fn triangle_parity_swaps_row_groups_and_counts_duplicates() {
    // One live cell at (3, 1) on a 4x4 grid.
    let mut u = dead_grid(4, 4, CellFormFactor::Triangle);
    u.set_cells(&[(3, 1)]).unwrap();
    // (0, 0): coordinates share a parity, so the row below (dh = 1) is the
    // 3-candidate group {w-1, 0, 1}; it reaches (3, 1) exactly once.
    assert_eq!(u.live_neighbour_count_triangle(0, 0), 1);
    // (1, 0): parities differ, so the row below is the 5-candidate group
    // {w-2, w-1, 0, 1, 2}; on width 4 the offsets w-2 and 2 coincide, so
    // (3, 1) is deliberately counted twice.
    assert_eq!(u.live_neighbour_count_triangle(1, 0), 2);
}

#[test]
fn hexagon_offsets_are_keyed_by_row_parity() {
    // One live cell at (2, 2) on a 4x4 grid.
    let mut u = dead_grid(4, 4, CellFormFactor::Hexagon);
    u.set_cells(&[(2, 2)]).unwrap();
    // (2, 1) sits on an odd row: its lower offsets are {w-1, 0}, which
    // reach (1, 2) and (2, 2).
    assert_eq!(u.live_neighbour_count_hexagon(2, 1), 1);
    // (2, 0) sits on an even row: none of its six candidates reaches
    // (2, 2).
    assert_eq!(u.live_neighbour_count_hexagon(2, 0), 0);
}

#[test]
fn square_skip_goes_by_offset_values_on_narrow_grids() {
    // Width 1: the offset width-1 is itself 0, so its pairs with a zero
    // vertical offset are skipped as well, leaving seven counted
    // candidates per cell.
    let u = alive_grid(1, 3, CellFormFactor::Square);
    assert_eq!(u.live_neighbour_count_square(0, 1), 7);
    // 1x1: only five of the nine offset pairs escape the skip, and all of
    // them wrap back to the single cell.
    let u = alive_grid(1, 1, CellFormFactor::Square);
    assert_eq!(u.live_neighbour_count_square(0, 0), 5);
    // Height 1, width at least 2: the vertical offset height-1 is 0, so
    // the pairs pairing it with a zero horizontal offset are skipped.
    let u = alive_grid(3, 1, CellFormFactor::Square);
    assert_eq!(u.live_neighbour_count_square(1, 0), 7);
}
