//! The textual frame a universe renders to: a bordered rectangle with one
//! two-character glyph per cell, stated as a function of the abstract state.

use vstd::prelude::*;
use crate::state::State;

verus! {

/// The two characters that draw one cell: distinct glyphs for each
/// combination of alive and selected-under-a-visible-cursor.
pub open spec fn glyph(alive: bool, selected: bool) -> Seq<char> {
    if alive {
        if selected {
            seq!['\u{2592}', '\u{2592}']
        } else {
            seq!['\u{2588}', '\u{2588}']
        }
    } else {
        if selected {
            seq!['\u{2591}', '\u{2591}']
        } else {
            seq![' ', ' ']
        }
    }
}

/// `n` cells' worth of horizontal border.
pub open spec fn border_run(n: int) -> Seq<char>
    decreases n,
{
    if n <= 0 {
        Seq::empty()
    } else {
        border_run(n - 1) + seq!['\u{2550}', '\u{2550}']
    }
}

/// Whether the visible cursor sits on `(row, col)`.
pub open spec fn selected(s: State, row: int, col: int) -> bool {
    s.show_cursor && row == s.cursor_row && col == s.cursor_col
}

/// The glyphs of the first `n` cells of row `row`.
pub open spec fn row_cells(s: State, row: int, n: int) -> Seq<char>
    decreases n,
{
    if n <= 0 {
        Seq::empty()
    } else {
        row_cells(s, row, n - 1) + glyph(s.cells[row * s.width + (n - 1)], selected(s, row, n - 1))
    }
}

/// The first `n` grid rows, each fenced by vertical border characters.
pub open spec fn grid_rows(s: State, n: int) -> Seq<char>
    decreases n,
{
    if n <= 0 {
        Seq::empty()
    } else {
        grid_rows(s, n - 1) + seq!['\u{2551}'] + row_cells(s, n - 1, s.width as int) + seq![
            '\u{2551}',
            '\n',
        ]
    }
}

/// The whole frame: top border, every grid row, bottom border.
pub open spec fn spec_frame(s: State) -> Seq<char> {
    seq!['\u{2554}'] + border_run(s.width as int) + seq!['\u{2557}', '\n'] + grid_rows(
        s,
        s.height as int,
    ) + seq!['\u{255A}'] + border_run(s.width as int) + seq!['\u{255D}', '\n']
}

} // verus!
