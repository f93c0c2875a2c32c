//! The universe engine: a bounded grid of cells, a wrapping edit cursor,
//! mode flags, the generation step and a bounded undo history.

use vstd::prelude::*;
use std::collections::VecDeque;
use crate::state::State;
use crate::state::HISTORY_LEN;
use crate::state::dead_grid;
use crate::state::live_neighbors;
use crate::state::next_cell;
use crate::state::next_grid;
use crate::state::push_history;
use crate::state::tick_state;
use crate::state::back_state;
use crate::state::listed_index;
use crate::state::lemma_index_bound;
use crate::frame::spec_frame;
use crate::frame::border_run;
use crate::frame::row_cells;
use crate::frame::grid_rows;
use crate::frame::glyph;
use crate::frame::selected;
use vstd::arithmetic::div_mod::lemma_fundamental_div_mod_converse;
use vstd::arithmetic::div_mod::lemma_small_mod;
use vstd::arithmetic::div_mod::lemma_add_mod_noop_right;
use vstd::arithmetic::div_mod::lemma_sub_mod_noop_right;
use vstd::arithmetic::div_mod::lemma_mod_add_multiples_vanish;

verus! {

/// A Game of Life universe with fixed extents, an edit cursor and a bounded
/// ring of past grids for undo.
pub struct Universe {
    width: usize,
    height: usize,
    cells: Vec<bool>,
    selected_cell: (usize, usize),
    show_cursor: bool,
    is_running: bool,
    history: VecDeque<Vec<bool>>,
}

impl View for Universe {
    type V = State;

    closed spec fn view(&self) -> State {
        State {
            width: self.width as nat,
            height: self.height as nat,
            cells: self.cells@,
            cursor_row: self.selected_cell.0 as nat,
            cursor_col: self.selected_cell.1 as nat,
            show_cursor: self.show_cursor,
            is_running: self.is_running,
            history: Seq::new(self.history@.len(), |k: int| self.history@[k]@),
        }
    }
}

/// A grid of `width * height` dead cells.
fn make_dead_grid(width: usize, height: usize) -> (g: Vec<bool>)
    requires
        width * height <= usize::MAX,
    ensures
        g@ == dead_grid(width as nat, height as nat),
{
    let n: usize = width * height;
    let mut g: Vec<bool> = Vec::new();
    let mut i: usize = 0;
    while i < n
        invariant
            i <= n,
            n == width * height,
            g@.len() == i,
            forall|k: int| 0 <= k < i ==> !(#[trigger] g@[k]),
        decreases n - i,
    {
        g.push(false);
        i = i + 1;
    }
    assert(g@ =~= dead_grid(width as nat, height as nat));
    g
}

/// An exact copy of a grid.
fn copy_grid(g: &Vec<bool>) -> (c: Vec<bool>)
    ensures
        c@ == g@,
{
    let mut c: Vec<bool> = Vec::new();
    let mut i: usize = 0;
    while i < g.len()
        invariant
            i <= g@.len(),
            c@ =~= g@.subrange(0, i as int),
        decreases g@.len() - i,
    {
        c.push(g[i]);
        i = i + 1;
    }
    assert(c@ =~= g@);
    c
}

/// `pos` moved by `delta` on an axis of `extent` positions, wrapping
/// circularly: the result is the true modulus `(pos + delta) mod extent`,
/// always in `[0, extent)`, for deltas of any magnitude and sign.
fn wrap_add(pos: usize, delta: isize, extent: usize) -> (r: usize)
    requires
        extent >= 1,
        pos < extent,
    ensures
        r < extent,
        r == (pos + delta) % (extent as int),
{
    if delta >= 0 {
        let step: usize = (delta as usize) % extent;
        proof {
            lemma_add_mod_noop_right(pos as int, delta as int, extent as int);
        }
        if step < extent - pos {
            proof {
                lemma_small_mod((pos + step) as nat, extent as nat);
            }
            pos + step
        } else {
            proof {
                lemma_mod_add_multiples_vanish(pos + step - extent, extent as int);
                lemma_small_mod((pos + step - extent) as nat, extent as nat);
            }
            step - (extent - pos)
        }
    } else {
        let mag: usize = ((-(delta + 1)) as usize) + 1;
        let step: usize = mag % extent;
        proof {
            assert(mag == -(delta as int));
            lemma_sub_mod_noop_right(pos as int, mag as int, extent as int);
        }
        if step <= pos {
            proof {
                lemma_small_mod((pos - step) as nat, extent as nat);
            }
            pos - step
        } else {
            proof {
                lemma_mod_add_multiples_vanish(pos - step, extent as int);
                lemma_small_mod((extent + pos - step) as nat, extent as nat);
            }
            extent - (step - pos)
        }
    }
}

/// The character that, written twice, draws a cell: chosen by whether the
/// cell is alive and whether the visible cursor sits on it, four
/// distinguishable glyphs in all.
fn glyph_char(alive: bool, sel: bool) -> (c: char)
    ensures
        seq![c, c] == glyph(alive, sel),
{
    let c = if alive {
        if sel {
            '\u{2592}'
        } else {
            '\u{2588}'
        }
    } else {
        if sel {
            '\u{2591}'
        } else {
            ' '
        }
    };
    assert(seq![c, c] =~= glyph(alive, sel));
    c
}

impl Universe {
    /// A fresh universe: every cell dead, the cursor at the origin, both mode
    /// flags off and no history.
    pub fn new(width: usize, height: usize) -> (u: Universe)
        requires
            width >= 1,
            height >= 1,
            width * height <= usize::MAX,
        ensures
            u@.wf(),
            u@.width == width,
            u@.height == height,
            u@.cells == dead_grid(width as nat, height as nat),
            u@.cursor_row == 0,
            u@.cursor_col == 0,
            !u@.show_cursor,
            !u@.is_running,
            u@.history.len() == 0,
    {
        let u = Universe {
            width,
            height,
            cells: make_dead_grid(width, height),
            selected_cell: (0, 0),
            show_cursor: false,
            is_running: false,
            history: VecDeque::new(),
        };
        assert(u@.history =~= Seq::<Seq<bool>>::empty());
        u
    }

    /// Moves the cursor by the signed deltas, each axis wrapping circularly:
    /// the new coordinate on each axis is the true modulus of the old one
    /// plus the delta, so it always stays on the grid, for deltas of any
    /// magnitude. Only the cursor moves.
    pub fn move_cursor(&mut self, r: isize, c: isize)
        requires
            old(self)@.wf(),
        ensures
            final(self)@.wf(),
            final(self)@ == (State {
                cursor_row: ((old(self)@.cursor_row + r) % (old(self)@.height as int)) as nat,
                cursor_col: ((old(self)@.cursor_col + c) % (old(self)@.width as int)) as nat,
                ..old(self)@
            }),
    {
        let row = wrap_add(self.selected_cell.0, r, self.height);
        let col = wrap_add(self.selected_cell.1, c, self.width);
        self.selected_cell = (row, col);
        assert(self@ =~= (State {
            cursor_row: ((old(self)@.cursor_row + r) % (old(self)@.height as int)) as nat,
            cursor_col: ((old(self)@.cursor_col + c) % (old(self)@.width as int)) as nat,
            ..old(self)@
        }));
    }

    /// The flat index of `(row, col)` in the row-major grid.
    fn get_index(&self, row: usize, column: usize) -> (i: usize)
        requires
            self@.wf(),
            row < self@.height,
            column < self@.width,
        ensures
            i == row * self@.width + column,
            i < self@.cells.len(),
    {
        proof {
            lemma_index_bound(self.width as int, self.height as int, row as int, column as int);
        }
        let n: usize = self.cells.len();
        assert(row * self.width + column < n);
        row * self.width + column
    }

    /// Whether the cell at `(row, col)` is alive.
    pub fn get_cell(&self, row: usize, col: usize) -> (alive: bool)
        requires
            self@.wf(),
            row < self@.height,
            col < self@.width,
        ensures
            alive == self@.cells[row * self@.width + col],
    {
        let ind = self.get_index(row, col);
        self.cells[ind]
    }

    /// How many of the eight cells around `(row, col)` are alive. The
    /// neighbourhood is clipped at the grid edge: positions off the grid are
    /// dead, the count never wraps around.
    fn live_neighbour_count(&self, row: usize, col: usize) -> (n: usize)
        requires
            self@.wf(),
            row < self@.height,
            col < self@.width,
        ensures
            n == live_neighbors(
                self@.cells,
                self@.width as int,
                self@.height as int,
                row as int,
                col as int,
            ),
            n <= 8,
    {
        let mut ans: usize = 0;
        if row > 0 {
            if col > 0 && self.get_cell(row - 1, col - 1) {
                ans = ans + 1;
            }
            if self.get_cell(row - 1, col) {
                ans = ans + 1;
            }
            if col + 1 < self.width && self.get_cell(row - 1, col + 1) {
                ans = ans + 1;
            }
        }
        if col > 0 && self.get_cell(row, col - 1) {
            ans = ans + 1;
        }
        if col + 1 < self.width && self.get_cell(row, col + 1) {
            ans = ans + 1;
        }
        if row + 1 < self.height {
            if col > 0 && self.get_cell(row + 1, col - 1) {
                ans = ans + 1;
            }
            if self.get_cell(row + 1, col) {
                ans = ans + 1;
            }
            if col + 1 < self.width && self.get_cell(row + 1, col + 1) {
                ans = ans + 1;
            }
        }
        ans
    }

    /// Advances the universe one generation: every cell is recomputed
    /// simultaneously from the pre-tick grid by the birth/survival rule, and
    /// the pre-tick grid is pushed onto the history, evicting the oldest
    /// snapshot when the history is at capacity. Cursor and mode flags are
    /// untouched.
    pub fn tick(&mut self)
        requires
            old(self)@.wf(),
        ensures
            final(self)@.wf(),
            final(self)@ == tick_state(old(self)@),
    {
        let ghost g = self@.cells;
        let ghost w = self@.width as int;
        let ghost h = self@.height as int;
        // the grid's own length witnesses that `width * height` fits a usize
        let grid_len: usize = self.cells.len();
        assert(grid_len == self@.width * self@.height);
        let mut next = make_dead_grid(self.width, self.height);
        let mut row: usize = 0;
        while row < self.height
            invariant
                self == old(self),
                self@.wf(),
                g == self@.cells,
                w == self@.width as int,
                h == self@.height as int,
                row <= h,
                next@.len() == w * h,
                forall|i: int|
                    0 <= i < row * w ==> #[trigger] next@[i] == next_grid(g, w, h)[i],
            decreases h - row,
        {
            let mut col: usize = 0;
            proof {
                lemma_index_bound(w, h, row as int, 0);
            }
            while col < self.width
                invariant
                    self == old(self),
                    self@.wf(),
                    g == self@.cells,
                    w == self@.width as int,
                    h == self@.height as int,
                    row < h,
                    col <= w,
                    next@.len() == w * h,
                    forall|i: int|
                        0 <= i < row * w + col ==> #[trigger] next@[i] == next_grid(g, w, h)[i],
                decreases w - col,
            {
                let idx = self.get_index(row, col);
                let cell = self.get_cell(row, col);
                let live_neighbours = self.live_neighbour_count(row, col);
                let newval = if cell {
                    live_neighbours == 2 || live_neighbours == 3
                } else {
                    live_neighbours == 3
                };
                next.set(idx, newval);
                proof {
                    lemma_fundamental_div_mod_converse(idx as int, w, row as int, col as int);
                    assert(next_grid(g, w, h)[idx as int] == next_cell(
                        g[idx as int],
                        live_neighbors(g, w, h, row as int, col as int),
                    ));
                }
                col = col + 1;
            }
            proof {
                assert((row + 1) * w == row * w + w) by (nonlinear_arith);
            }
            row = row + 1;
        }
        proof {
            assert(h * w == w * h) by (nonlinear_arith);
            assert(next@ =~= next_grid(g, w, h));
        }
        if self.history.len() >= HISTORY_LEN {
            let _ = self.history.pop_front();
        }
        let snapshot = copy_grid(&self.cells);
        self.history.push_back(snapshot);
        self.cells = next;
        proof {
            assert(self@.history =~= push_history(old(self)@.history, g));
            assert(self@ =~= tick_state(old(self)@));
        }
    }

    /// Sets the cell at `(row, col)` to `val`, leaving every other cell and
    /// all other state alone.
    pub fn set_cell(&mut self, row: usize, col: usize, val: bool)
        requires
            old(self)@.wf(),
            row < old(self)@.height,
            col < old(self)@.width,
        ensures
            final(self)@.wf(),
            final(self)@ == (State {
                cells: old(self)@.cells.update(row * old(self)@.width + col, val),
                ..old(self)@
            }),
    {
        let ind = self.get_index(row, col);
        self.cells.set(ind, val);
        assert(self@ =~= (State {
            cells: old(self)@.cells.update(row as int * old(self)@.width as int + col as int, val),
            ..old(self)@
        }));
    }

    /// Seeds every listed `(row, col)` to alive, in one sweep. Purely
    /// additive: a cell ends up alive exactly when it already was or is
    /// listed; nothing else — cursor, flags, history — moves.
    pub fn set_cells(&mut self, cells: &[(usize, usize)])
        requires
            old(self)@.wf(),
            forall|k: int|
                0 <= k < cells@.len() ==> (#[trigger] cells@[k]).0 < old(self)@.height
                    && cells@[k].1 < old(self)@.width,
        ensures
            final(self)@.wf(),
            final(self)@ == (State { cells: final(self)@.cells, ..old(self)@ }),
            final(self)@.cells.len() == old(self)@.cells.len(),
            forall|i: int|
                0 <= i < old(self)@.cells.len() ==> #[trigger] final(self)@.cells[i] == (old(
                    self,
                )@.cells[i] || listed_index(
                    cells@,
                    old(self)@.width as int,
                    cells@.len() as int,
                    i,
                )),
    {
        let ghost w = self@.width as int;
        let ghost g0 = self@.cells;
        let mut j: usize = 0;
        while j < cells.len()
            invariant
                self@.wf(),
                self@ == (State { cells: self@.cells, ..old(self)@ }),
                self@.cells.len() == g0.len(),
                g0 == old(self)@.cells,
                w == self@.width as int,
                j <= cells@.len(),
                forall|k: int|
                    0 <= k < cells@.len() ==> (#[trigger] cells@[k]).0 < self@.height
                        && cells@[k].1 < self@.width,
                forall|i: int|
                    0 <= i < g0.len() ==> #[trigger] self@.cells[i] == (g0[i] || listed_index(
                        cells@,
                        w,
                        j as int,
                        i,
                    )),
            decreases cells@.len() - j,
        {
            let (row, col) = cells[j];
            let ind = self.get_index(row, col);
            let ghost before = self@.cells;
            self.cells.set(ind, true);
            proof {
                assert((cells@[j as int]).0 * w + cells@[j as int].1 == ind);
                assert forall|i: int| 0 <= i < g0.len() implies #[trigger] self@.cells[i] == (
                g0[i] || listed_index(cells@, w, j + 1, i)) by {
                    if i == ind {
                        assert(listed_index(cells@, w, j + 1, i));
                    } else {
                        assert(self@.cells[i] == before[i]);
                        if listed_index(cells@, w, j + 1, i) {
                            let k = choose|k: int|
                                0 <= k < j + 1 && (#[trigger] cells@[k]).0 * w + cells@[k].1 == i;
                            assert(k < j);
                            assert(listed_index(cells@, w, j as int, i));
                        }
                        if listed_index(cells@, w, j as int, i) {
                            let k = choose|k: int|
                                0 <= k < j && (#[trigger] cells@[k]).0 * w + cells@[k].1 == i;
                            assert(0 <= k < j + 1 && (cells@[k]).0 * w + cells@[k].1 == i);
                            assert(listed_index(cells@, w, j + 1, i));
                        }
                    }
                }
            }
            j = j + 1;
        }
    }

    /// Takes the universe back one generation: the most recent snapshot
    /// becomes the grid again and leaves the history. With no history left
    /// the grid is untouched and the error says so.
    pub fn tick_back(&mut self) -> (r: Result<&'static str, &'static str>)
        requires
            old(self)@.wf(),
        ensures
            final(self)@.wf(),
            r is Ok <==> old(self)@.history.len() > 0,
            old(self)@.history.len() == 0 ==> final(self)@ == old(self)@ && r == Err::<
                &'static str,
                &'static str,
            >("No more moves in history!"),
            old(self)@.history.len() > 0 ==> final(self)@ == back_state(old(self)@) && r == Ok::<
                &'static str,
                &'static str,
            >("Returned to previous step"),
    {
        match self.history.pop_back() {
            Some(x) => {
                self.cells = x;
                proof {
                    assert(self@ =~= back_state(old(self)@));
                }
                Ok("Returned to previous step")
            },
            None => {
                proof {
                    assert(self@ =~= old(self)@);
                }
                Err("No more moves in history!")
            },
        }
    }

    /// Flips the cell under the cursor between dead and alive. The history
    /// is not touched.
    pub fn toggle_selected_cell(&mut self)
        requires
            old(self)@.wf(),
        ensures
            final(self)@.wf(),
            final(self)@ == (State {
                cells: old(self)@.cells.update(
                    (old(self)@.cursor_row * old(self)@.width + old(self)@.cursor_col) as int,
                    !old(self)@.cells[(old(self)@.cursor_row * old(self)@.width + old(
                        self,
                    )@.cursor_col) as int],
                ),
                ..old(self)@
            }),
    {
        let (row, col) = self.selected_cell;
        let val = self.get_cell(row, col);
        self.set_cell(row, col, !val);
    }

    /// Kills every cell. Cursor, mode flags and history all stay exactly as
    /// they were.
    pub fn clear(&mut self)
        requires
            old(self)@.wf(),
        ensures
            final(self)@.wf(),
            final(self)@ == (State {
                cells: dead_grid(old(self)@.width, old(self)@.height),
                ..old(self)@
            }),
    {
        // the grid's own length witnesses that `width * height` fits a usize
        let grid_len: usize = self.cells.len();
        assert(grid_len == self@.width * self@.height);
        self.cells = make_dead_grid(self.width, self.height);
        assert(self@ =~= (State {
            cells: dead_grid(old(self)@.width, old(self)@.height),
            ..old(self)@
        }));
    }

    /// Renders the universe as one textual frame: a border-drawn rectangle
    /// of `height` rows by `width` cells, each cell a two-character glyph
    /// picked by whether it is alive and whether the visible cursor sits on
    /// it. A pure read: the frame is a function of the abstract state alone,
    /// so equal states always render identically.
    pub fn render(&self) -> (frame: Vec<char>)
        requires
            self@.wf(),
        ensures
            frame@ == spec_frame(self@),
    {
        let ghost s = self@;
        let ghost w = self@.width as int;
        let mut out: Vec<char> = Vec::new();
        out.push('\u{2554}');
        let mut i: usize = 0;
        while i < self.width
            invariant
                self@ == s,
                i <= s.width,
                out@ == seq!['\u{2554}'] + border_run(i as int),
            decreases s.width - i,
        {
            out.push('\u{2550}');
            out.push('\u{2550}');
            proof {
                assert(out@ =~= seq!['\u{2554}'] + border_run(i + 1));
            }
            i = i + 1;
        }
        out.push('\u{2557}');
        out.push('\n');
        let ghost top = seq!['\u{2554}'] + border_run(w) + seq!['\u{2557}', '\n'];
        proof {
            assert(out@ =~= top + grid_rows(s, 0));
        }
        let mut row: usize = 0;
        while row < self.height
            invariant
                self@ == s,
                self@.wf(),
                w == s.width as int,
                row <= s.height,
                out@ == top + grid_rows(s, row as int),
            decreases s.height - row,
        {
            out.push('\u{2551}');
            let ghost done = top + grid_rows(s, row as int) + seq!['\u{2551}'];
            proof {
                assert(out@ =~= done + row_cells(s, row as int, 0));
            }
            let mut col: usize = 0;
            while col < self.width
                invariant
                    self@ == s,
                    self@.wf(),
                    w == s.width as int,
                    row < s.height,
                    col <= s.width,
                    done == top + grid_rows(s, row as int) + seq!['\u{2551}'],
                    out@ == done + row_cells(s, row as int, col as int),
                decreases s.width - col,
            {
                let alive = self.get_cell(row, col);
                let sel = self.show_cursor && row == self.selected_cell.0 && col
                    == self.selected_cell.1;
                assert(sel == selected(s, row as int, col as int));
                let c = glyph_char(alive, sel);
                out.push(c);
                out.push(c);
                proof {
                    assert(out@ =~= done + row_cells(s, row as int, col + 1));
                }
                col = col + 1;
            }
            out.push('\u{2551}');
            out.push('\n');
            proof {
                assert(out@ =~= top + grid_rows(s, row + 1));
            }
            row = row + 1;
        }
        let ghost mid = top + grid_rows(s, s.height as int);
        out.push('\u{255A}');
        let mut j: usize = 0;
        while j < self.width
            invariant
                self@ == s,
                j <= s.width,
                mid == top + grid_rows(s, s.height as int),
                out@ == mid + seq!['\u{255A}'] + border_run(j as int),
            decreases s.width - j,
        {
            out.push('\u{2550}');
            out.push('\u{2550}');
            proof {
                assert(out@ =~= mid + seq!['\u{255A}'] + border_run(j + 1));
            }
            j = j + 1;
        }
        out.push('\u{255D}');
        out.push('\n');
        proof {
            assert(out@ =~= spec_frame(s));
        }
        out
    }

    /// The grid width.
    pub fn width(&self) -> (w: usize)
        ensures
            w == self@.width,
    {
        self.width
    }

    /// The grid height.
    pub fn height(&self) -> (h: usize)
        ensures
            h == self@.height,
    {
        self.height
    }

    /// The cursor position as `(row, col)`.
    pub fn cursor(&self) -> (rc: (usize, usize))
        ensures
            rc.0 == self@.cursor_row,
            rc.1 == self@.cursor_col,
    {
        self.selected_cell
    }

    /// Whether the cursor is drawn.
    pub fn show_cursor(&self) -> (b: bool)
        ensures
            b == self@.show_cursor,
    {
        self.show_cursor
    }

    /// Shows or hides the cursor; a rendering concern only.
    pub fn set_show_cursor(&mut self, v: bool)
        ensures
            final(self)@ == (State { show_cursor: v, ..old(self)@ }),
    {
        self.show_cursor = v;
        assert(self@ =~= (State { show_cursor: v, ..old(self)@ }));
    }

    /// Whether the driver should auto-advance the universe.
    pub fn is_running(&self) -> (b: bool)
        ensures
            b == self@.is_running,
    {
        self.is_running
    }

    /// Starts or stops auto-advancing; the flag lives here, the driver acts
    /// on it.
    pub fn set_running(&mut self, v: bool)
        ensures
            final(self)@ == (State { is_running: v, ..old(self)@ }),
    {
        self.is_running = v;
        assert(self@ =~= (State { is_running: v, ..old(self)@ }));
    }

    /// How many snapshots the undo history currently holds.
    pub fn history_len(&self) -> (n: usize)
        ensures
            n == self@.history.len(),
    {
        self.history.len()
    }
}

} // verus!
