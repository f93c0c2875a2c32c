use game_of_life::Universe;
use game_of_life::HISTORY_LEN;

fn grid_of(u: &Universe) -> Vec<bool> {
    let mut g = Vec::new();
    for r in 0..u.height() {
        for c in 0..u.width() {
            g.push(u.get_cell(r, c));
        }
    }
    g
}

#[test]
fn new_universe_is_dead_and_idle() {
    let u = Universe::new(6, 4);
    assert_eq!(u.width(), 6);
    assert_eq!(u.height(), 4);
    assert!(grid_of(&u).iter().all(|&b| !b));
    assert_eq!(u.cursor(), (0, 0));
    assert!(!u.show_cursor());
    assert!(!u.is_running());
    assert_eq!(u.history_len(), 0);
}

#[test]
fn set_and_get_cell() {
    let mut u = Universe::new(3, 3);
    u.set_cell(1, 2, true);
    assert!(u.get_cell(1, 2));
    assert!(!u.get_cell(2, 1));
    u.set_cell(1, 2, false);
    assert!(!u.get_cell(1, 2));
}

#[test]
fn move_cursor_wraps_at_edges() {
    let mut u = Universe::new(6, 6);
    u.move_cursor(-1, 0);
    assert_eq!(u.cursor(), (5, 0));
    u.move_cursor(1, -1);
    assert_eq!(u.cursor(), (0, 5));
    u.move_cursor(0, 1);
    assert_eq!(u.cursor(), (0, 0));
}

#[test]
fn move_cursor_handles_large_deltas() {
    let mut u = Universe::new(5, 7);
    u.move_cursor(23, -18);
    // 23 mod 7 = 2; -18 mod 5 = 2
    assert_eq!(u.cursor(), (2, 2));
    u.move_cursor(-700, 700);
    assert_eq!(u.cursor(), (2, 2));
}

#[test]
fn move_cursor_exact_negative_multiple_stays_in_range() {
    let mut u = Universe::new(6, 6);
    u.move_cursor(-6, 0);
    assert_eq!(u.cursor(), (0, 0));
    u.move_cursor(-12, -6);
    assert_eq!(u.cursor(), (0, 0));
    u.move_cursor(-7, 0);
    assert_eq!(u.cursor(), (5, 0));
}

#[test]
fn move_cursor_composes_like_summed_deltas() {
    let mut a = Universe::new(5, 7);
    let mut b = Universe::new(5, 7);
    a.move_cursor(3, 4);
    b.move_cursor(3, 4);
    a.move_cursor(5, -9);
    a.move_cursor(-11, 2);
    b.move_cursor(5 + -11, -9 + 2);
    assert_eq!(a.cursor(), b.cursor());
}

#[test]
fn toggle_selected_cell_flips_and_leaves_history() {
    let mut u = Universe::new(4, 4);
    u.move_cursor(2, 1);
    u.toggle_selected_cell();
    assert!(u.get_cell(2, 1));
    assert_eq!(u.history_len(), 0);
    u.toggle_selected_cell();
    assert!(!u.get_cell(2, 1));
    assert_eq!(u.history_len(), 0);
}

#[test]
fn set_cells_is_additive() {
    let mut u = Universe::new(4, 4);
    u.set_cell(0, 0, true);
    u.set_cells(&[(1, 1), (2, 2)]);
    assert!(u.get_cell(0, 0));
    assert!(u.get_cell(1, 1));
    assert!(u.get_cell(2, 2));
    u.set_cells(&[(3, 3)]);
    assert!(u.get_cell(0, 0));
    assert!(u.get_cell(1, 1));
    assert!(u.get_cell(2, 2));
    assert!(u.get_cell(3, 3));
    assert!(!u.get_cell(0, 1));
}

#[test]
fn lonely_cell_dies() {
    let mut u = Universe::new(4, 4);
    u.set_cell(1, 1, true);
    u.tick();
    assert!(grid_of(&u).iter().all(|&b| !b));
}

#[test]
fn block_still_life_is_stable() {
    let mut u = Universe::new(4, 4);
    u.set_cells(&[(1, 1), (1, 2), (2, 1), (2, 2)]);
    let before = grid_of(&u);
    u.tick();
    assert_eq!(grid_of(&u), before);
    u.tick();
    assert_eq!(grid_of(&u), before);
}

#[test]
fn blinker_oscillates_with_period_two() {
    let mut u = Universe::new(5, 5);
    u.set_cells(&[(2, 1), (2, 2), (2, 3)]);
    let horizontal = grid_of(&u);
    u.tick();
    let vertical = grid_of(&u);
    let mut expected = Universe::new(5, 5);
    expected.set_cells(&[(1, 2), (2, 2), (3, 2)]);
    assert_eq!(vertical, grid_of(&expected));
    u.tick();
    assert_eq!(grid_of(&u), horizontal);
}

#[test]
fn neighbour_count_clips_at_the_edge() {
    // A row of three on a one-row grid: the ends see one live neighbour,
    // the middle two; nothing beyond the border is counted.
    let mut u = Universe::new(3, 1);
    u.set_cells(&[(0, 0), (0, 1), (0, 2)]);
    u.tick();
    assert!(!u.get_cell(0, 0));
    assert!(u.get_cell(0, 1));
    assert!(!u.get_cell(0, 2));
}

#[test]
fn two_by_two_grid_block_survives_clipping() {
    let mut u = Universe::new(2, 2);
    u.set_cells(&[(0, 0), (0, 1), (1, 0), (1, 1)]);
    let before = grid_of(&u);
    u.tick();
    assert_eq!(grid_of(&u), before);
}

#[test]
fn tick_then_tick_back_restores_grid() {
    let mut u = Universe::new(5, 5);
    u.set_cells(&[(0, 0), (2, 1), (2, 2), (2, 3), (4, 4)]);
    let before = grid_of(&u);
    u.tick();
    assert_eq!(u.tick_back(), Ok("Returned to previous step"));
    assert_eq!(grid_of(&u), before);
}

#[test]
fn tick_back_restores_through_several_generations() {
    let mut u = Universe::new(5, 5);
    u.set_cells(&[(2, 1), (2, 2), (2, 3)]);
    let g0 = grid_of(&u);
    u.tick();
    let g1 = grid_of(&u);
    u.tick();
    u.tick();
    u.tick();
    assert_eq!(u.history_len(), 4);
    assert!(u.tick_back().is_ok());
    assert!(u.tick_back().is_ok());
    assert!(u.tick_back().is_ok());
    assert_eq!(grid_of(&u), g1);
    assert!(u.tick_back().is_ok());
    assert_eq!(grid_of(&u), g0);
    assert!(u.tick_back().is_err());
}

#[test]
fn tick_back_on_fresh_universe_reports_no_history() {
    let mut u = Universe::new(4, 4);
    u.set_cell(1, 1, true);
    let before = grid_of(&u);
    assert_eq!(u.tick_back(), Err("No more moves in history!"));
    assert_eq!(grid_of(&u), before);
    assert_eq!(u.cursor(), (0, 0));
}

#[test]
fn history_is_capped_at_capacity() {
    let mut u = Universe::new(5, 5);
    u.set_cells(&[(2, 1), (2, 2), (2, 3)]);
    for _ in 0..HISTORY_LEN + 5 {
        u.tick();
    }
    assert_eq!(u.history_len(), HISTORY_LEN);
    let mut undone = 0;
    while u.tick_back().is_ok() {
        undone += 1;
    }
    assert_eq!(undone, HISTORY_LEN);
    assert!(u.tick_back().is_err());
}

#[test]
fn clear_kills_cells_but_keeps_cursor_and_history() {
    let mut u = Universe::new(5, 5);
    u.set_cells(&[(2, 1), (2, 2), (2, 3)]);
    u.move_cursor(3, 2);
    u.tick();
    u.tick();
    let depth = u.history_len();
    u.clear();
    assert!(grid_of(&u).iter().all(|&b| !b));
    assert_eq!(u.cursor(), (3, 2));
    assert_eq!(u.history_len(), depth);
    assert!(u.tick_back().is_ok());
    let mut expected = Universe::new(5, 5);
    expected.set_cells(&[(1, 2), (2, 2), (3, 2)]);
    assert_eq!(grid_of(&u), grid_of(&expected));
}

#[test]
fn run_and_cursor_flags_toggle() {
    let mut u = Universe::new(3, 3);
    u.set_running(true);
    assert!(u.is_running());
    u.set_running(false);
    assert!(!u.is_running());
    u.set_show_cursor(true);
    assert!(u.show_cursor());
    u.set_show_cursor(false);
    assert!(!u.show_cursor());
}
