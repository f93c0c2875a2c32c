use game_of_life::Universe;

fn frame_string(u: &Universe) -> String {
    u.render().into_iter().collect()
}

#[test]
fn render_draws_bordered_dead_grid() {
    let u = Universe::new(2, 1);
    assert_eq!(frame_string(&u), "\u{2554}\u{2550}\u{2550}\u{2550}\u{2550}\u{2557}\n\u{2551}    \u{2551}\n\u{255A}\u{2550}\u{2550}\u{2550}\u{2550}\u{255D}\n");
}

#[test]
fn render_distinguishes_all_four_cell_glyphs() {
    // Cursor shown on (0, 0): selected-alive, plain alive, selected-dead
    // and plain dead must each have their own glyph.
    let mut u = Universe::new(2, 1);
    u.set_cell(0, 0, true);
    u.set_cell(0, 1, true);
    u.set_show_cursor(true);
    assert_eq!(
        frame_string(&u),
        "\u{2554}\u{2550}\u{2550}\u{2550}\u{2550}\u{2557}\n\u{2551}\u{2592}\u{2592}\u{2588}\u{2588}\u{2551}\n\u{255A}\u{2550}\u{2550}\u{2550}\u{2550}\u{255D}\n"
    );
    u.set_cell(0, 0, false);
    u.set_cell(0, 1, false);
    assert_eq!(
        frame_string(&u),
        "\u{2554}\u{2550}\u{2550}\u{2550}\u{2550}\u{2557}\n\u{2551}\u{2591}\u{2591}  \u{2551}\n\u{255A}\u{2550}\u{2550}\u{2550}\u{2550}\u{255D}\n"
    );
}

#[test]
fn render_hides_cursor_when_flag_is_off() {
    let mut u = Universe::new(2, 2);
    u.set_cell(0, 0, true);
    let hidden = frame_string(&u);
    assert!(!hidden.contains('\u{2592}'));
    assert!(!hidden.contains('\u{2591}'));
    u.set_show_cursor(true);
    let shown = frame_string(&u);
    assert!(shown.contains('\u{2592}'));
    assert_ne!(hidden, shown);
}

#[test]
fn render_is_a_pure_function_of_state() {
    let mut a = Universe::new(4, 3);
    let mut b = Universe::new(4, 3);
    a.set_cells(&[(0, 1), (1, 2), (2, 3)]);
    b.set_cell(2, 3, true);
    b.set_cells(&[(0, 1), (1, 2)]);
    a.move_cursor(1, 1);
    b.move_cursor(-2, 5);
    a.set_show_cursor(true);
    b.set_show_cursor(true);
    assert_eq!(frame_string(&a), frame_string(&b));
    assert_eq!(frame_string(&a), frame_string(&a));
}

#[test]
fn render_does_not_change_state() {
    let mut u = Universe::new(3, 3);
    u.set_cells(&[(1, 0), (1, 1), (1, 2)]);
    u.move_cursor(2, 2);
    let first = frame_string(&u);
    u.tick();
    assert!(u.tick_back().is_ok());
    assert_eq!(frame_string(&u), first);
    assert_eq!(u.cursor(), (2, 2));
}

#[test]
fn render_frame_has_expected_shape() {
    let u = Universe::new(5, 4);
    let f = frame_string(&u);
    let lines: Vec<&str> = f.lines().collect();
    assert_eq!(lines.len(), 4 + 2);
    for line in &lines {
        assert_eq!(line.chars().count(), 2 * 5 + 2);
    }
}
