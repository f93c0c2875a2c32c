//! Abstract model of a universe: the grid, the cursor, the mode flags and
//! the undo history, together with the step-evolution rule stated over it.

use vstd::prelude::*;

verus! {

/// Snapshots kept for undo, at most this many.
pub const HISTORY_LEN: usize = 20;

/// The abstract state of a universe.
///
/// The grid is a flat row-major sequence: the cell at `(row, col)` sits at
/// index `row * width + col`. The history holds the grids of past
/// generations, most recent last.
#[verifier::ext_equal]
pub ghost struct State {
    pub width: nat,
    pub height: nat,
    pub cells: Seq<bool>,
    pub cursor_row: nat,
    pub cursor_col: nat,
    pub show_cursor: bool,
    pub is_running: bool,
    pub history: Seq<Seq<bool>>,
}

impl State {
    /// Well-formedness: positive extents, a grid of exactly `width * height`
    /// cells, an in-bounds cursor, and a history of at most `HISTORY_LEN`
    /// equally sized grids.
    pub open spec fn wf(self) -> bool {
        &&& self.width >= 1
        &&& self.height >= 1
        &&& self.cells.len() == self.width * self.height
        &&& self.cursor_row < self.height
        &&& self.cursor_col < self.width
        &&& self.history.len() <= HISTORY_LEN
        &&& forall|k: int|
            0 <= k < self.history.len() ==> (#[trigger] self.history[k]).len()
                == self.width * self.height
    }
}

/// A row-major index stays on the grid and never overflows.
pub proof fn lemma_index_bound(width: int, height: int, row: int, col: int)
    requires
        0 <= row < height,
        0 <= col < width,
    ensures
        0 <= row * width + col < width * height,
{
    vstd::arithmetic::mul::lemma_mul_inequality(row + 1, height, width);
    assert((row + 1) * width == row * width + width) by (nonlinear_arith);
    assert(height * width == width * height) by (nonlinear_arith);
}

/// The grid with every cell dead.
pub open spec fn dead_grid(width: nat, height: nat) -> Seq<bool> {
    Seq::new(width * height, |i: int| false)
}

/// Whether `(row, col)` lies on a `width` by `height` grid.
pub open spec fn in_bounds(width: int, height: int, row: int, col: int) -> bool {
    0 <= row < height && 0 <= col < width
}

/// The cell at `(row, col)` of grid `g`; positions off the grid count as dead.
pub open spec fn cell_at(g: Seq<bool>, width: int, height: int, row: int, col: int) -> bool {
    in_bounds(width, height, row, col) && g[row * width + col]
}

/// 1 for a live cell, 0 for a dead one.
pub open spec fn count1(alive: bool) -> int {
    if alive {
        1
    } else {
        0
    }
}

/// How many of the eight surrounding positions hold a live cell. Positions
/// beyond the edge of the grid are dead: the neighbourhood is clipped, not
/// wrapped.
pub open spec fn live_neighbors(g: Seq<bool>, width: int, height: int, row: int, col: int) -> int {
    count1(cell_at(g, width, height, row - 1, col - 1)) + count1(
        cell_at(g, width, height, row - 1, col),
    ) + count1(cell_at(g, width, height, row - 1, col + 1)) + count1(
        cell_at(g, width, height, row, col - 1),
    ) + count1(cell_at(g, width, height, row, col + 1)) + count1(
        cell_at(g, width, height, row + 1, col - 1),
    ) + count1(cell_at(g, width, height, row + 1, col)) + count1(
        cell_at(g, width, height, row + 1, col + 1),
    )
}

/// The birth/survival rule: a live cell survives with two or three live
/// neighbours, a dead cell is born with exactly three, all else is dead.
pub open spec fn next_cell(alive: bool, neighbors: int) -> bool {
    if alive {
        neighbors == 2 || neighbors == 3
    } else {
        neighbors == 3
    }
}

/// One simultaneous generation step of a whole grid: every cell is computed
/// from the old grid alone.
pub open spec fn next_grid(g: Seq<bool>, width: int, height: int) -> Seq<bool> {
    Seq::new((width * height) as nat, |i: int| next_cell(g[i], live_neighbors(g, width, height, i / width, i % width)))
}

/// Whether one of the first `n` coordinate pairs of `list` names flat index
/// `i` of a grid `width` cells wide.
pub open spec fn listed_index(list: Seq<(usize, usize)>, width: int, n: int, i: int) -> bool {
    exists|k: int| 0 <= k < n && (#[trigger] list[k]).0 * width + list[k].1 == i
}

/// Pushing a snapshot onto a history at capacity drops the oldest one.
pub open spec fn push_history(h: Seq<Seq<bool>>, g: Seq<bool>) -> Seq<Seq<bool>> {
    if h.len() < HISTORY_LEN {
        h.push(g)
    } else {
        h.subrange(1, h.len() as int).push(g)
    }
}

/// What one `tick` does to the abstract state: the grid advances one
/// generation and the pre-tick grid is remembered; nothing else moves.
pub open spec fn tick_state(s: State) -> State {
    State {
        cells: next_grid(s.cells, s.width as int, s.height as int),
        history: push_history(s.history, s.cells),
        ..s
    }
}

/// What a successful `tick_back` does: the most recent snapshot becomes the
/// grid again; nothing else moves.
pub open spec fn back_state(s: State) -> State {
    State { cells: s.history.last(), history: s.history.drop_last(), ..s }
}

} // verus!
