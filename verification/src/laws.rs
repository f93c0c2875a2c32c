//! The library-wide laws: properties that relate several operations, stated
//! and proved over the abstract model.

use vstd::prelude::*;
use crate::state::State;
use crate::state::HISTORY_LEN;
use crate::state::live_neighbors;
use crate::state::next_cell;
use crate::state::tick_state;
use crate::state::back_state;
use crate::state::lemma_index_bound;
use crate::frame::spec_frame;
use crate::universe::Universe;
use vstd::arithmetic::div_mod::lemma_add_mod_noop;
use vstd::arithmetic::div_mod::lemma_add_mod_noop_right;
use vstd::arithmetic::div_mod::lemma_mod_bound;
use vstd::arithmetic::div_mod::lemma_fundamental_div_mod_converse;

verus! {

/// Wrapping cursor movement composes: stepping by `d1` and then by `d2`
/// lands exactly where one step by `d1 + d2` lands, on an axis of positive
/// extent. This holds per axis, so two `move_cursor` calls equal one call
/// with the summed deltas.
pub proof fn lemma_move_compose(pos: int, extent: int, d1: int, d2: int)
    requires
        extent > 0,
    ensures
        ((pos + d1) % extent + d2) % extent == (pos + (d1 + d2)) % extent,
{
    lemma_add_mod_noop(pos + d1, d2, extent);
    lemma_add_mod_noop_right((pos + d1) % extent, d2, extent);
    lemma_mod_bound(pos + d1, extent);
}

/// Rendering is a pure function of the abstract state: two universes whose
/// abstract states agree render character-identical frames, whatever their
/// concrete representation did before.
pub proof fn lemma_render_pure(a: Universe, b: Universe)
    requires
        a@ == b@,
    ensures
        spec_frame(a@) == spec_frame(b@),
{
}

/// The generation step is simultaneous and deterministic: what any cell
/// becomes is fixed by its own pre-tick state and its pre-tick neighbour
/// count alone, never by an already-updated cell, whatever order a sweep
/// visits the cells in.
pub proof fn lemma_tick_simultaneous(s: State, row: int, col: int)
    requires
        s.wf(),
        0 <= row < s.height,
        0 <= col < s.width,
    ensures
        tick_state(s).cells[row * s.width + col] == next_cell(
            s.cells[row * s.width + col],
            live_neighbors(s.cells, s.width as int, s.height as int, row, col),
        ),
{
    let w = s.width as int;
    let h = s.height as int;
    lemma_index_bound(w, h, row, col);
    lemma_fundamental_div_mod_converse(row * w + col, w, row, col);
    assert(w * h == h * w) by (nonlinear_arith);
}

/// One forward step followed by one undo restores the exact pre-tick grid,
/// from any well-formed state; and when the history was below capacity the
/// whole state — history included — comes back exactly.
pub proof fn lemma_tick_then_back(s: State)
    requires
        s.wf(),
    ensures
        tick_state(s).history.len() > 0,
        back_state(tick_state(s)).cells == s.cells,
        s.history.len() < HISTORY_LEN ==> back_state(tick_state(s)) == s,
{
    let t = tick_state(s);
    assert(t.history.last() == s.cells);
    if s.history.len() < HISTORY_LEN {
        assert(t.history.drop_last() =~= s.history);
        assert(back_state(t) =~= s);
    }
}

/// The undo history never outgrows its capacity: a step from a well-formed
/// state leaves at most `HISTORY_LEN` snapshots (exactly `HISTORY_LEN` once
/// it is full), and each successful undo consumes one, so no more than
/// `HISTORY_LEN` undos can succeed in a row.
pub proof fn lemma_history_bounded(s: State)
    requires
        s.wf(),
    ensures
        tick_state(s).history.len() <= HISTORY_LEN,
        s.history.len() >= HISTORY_LEN ==> tick_state(s).history.len() == HISTORY_LEN,
        s.history.len() > 0 ==> back_state(s).history.len() == s.history.len() - 1,
{
}

} // verus!
