//! One cycle of the editor: a batch of pointer events, taken in arrival
//! order and each carried out whole before the next is looked at.

use crate::board::{singletons_hold, step, step_updates, Board, ColorUpdate};
use crate::cell::{Cell, CellState};
use crate::grid::{Grid, GridError};
use crate::input::{pending_after, signal_of, translate, PointerEvent};
use crate::session::CellEditMode;
use vstd::prelude::*;

verus! {

/// The cell that a pointer event is addressed to.
pub open spec fn event_cell(event: PointerEvent) -> Cell {
    match event {
        PointerEvent::Over(c) => c,
        PointerEvent::Out(c) => c,
        PointerEvent::Click(c) => c,
    }
}

/// Every event of the batch is addressed to a cell of the board.
pub open spec fn all_on_board(m: Board, events: Seq<PointerEvent>) -> bool {
    forall|i: int| 0 <= i < events.len() ==> m.dom().contains(event_cell(#[trigger] events[i]))
}

/// The board after one pointer event: the event's signal, if it gives rise to
/// one, is carried out; otherwise the board stays as it is.
pub open spec fn react(m: Board, pending: Option<CellState>, event: PointerEvent) -> Board {
    match signal_of(pending, event) {
        Some(signal) => step(m, signal),
        None => m,
    }
}

/// The redraws that one pointer event calls for.
pub open spec fn react_updates(m: Board, pending: Option<CellState>, event: PointerEvent) -> Seq<
    ColorUpdate,
> {
    match signal_of(pending, event) {
        Some(signal) => step_updates(m, signal),
        None => seq![],
    }
}

/// The selected tool after a batch of events.
pub open spec fn cycle_pending(pending: Option<CellState>, events: Seq<PointerEvent>) -> Option<
    CellState,
>
    decreases events.len(),
{
    if events.len() == 0 {
        pending
    } else {
        pending_after(cycle_pending(pending, events.drop_last()), events.last())
    }
}

/// The board after a batch of events, each met with the tool that the events
/// before it have left selected.
pub open spec fn cycle_board(m: Board, pending: Option<CellState>, events: Seq<PointerEvent>) -> Board
    decreases events.len(),
{
    if events.len() == 0 {
        m
    } else {
        react(
            cycle_board(m, pending, events.drop_last()),
            cycle_pending(pending, events.drop_last()),
            events.last(),
        )
    }
}

/// The redraws that a batch of events calls for, in the order of the events.
pub open spec fn cycle_updates(
    m: Board,
    pending: Option<CellState>,
    events: Seq<PointerEvent>,
) -> Seq<ColorUpdate>
    decreases events.len(),
{
    if events.len() == 0 {
        seq![]
    } else {
        cycle_updates(m, pending, events.drop_last()) + react_updates(
            cycle_board(m, pending, events.drop_last()),
            cycle_pending(pending, events.drop_last()),
            events.last(),
        )
    }
}

/// The cell that an event is addressed to.
pub fn cell_of(event: PointerEvent) -> (c: Cell)
    ensures
        c == event_cell(event),
{
    match event {
        PointerEvent::Over(c) => c,
        PointerEvent::Out(c) => c,
        PointerEvent::Click(c) => c,
    }
}

/// Whether every event of a batch is addressed to a cell of the board.
pub fn batch_on_board(grid: &Grid, events: &Vec<PointerEvent>) -> (b: bool)
    ensures
        b == all_on_board(grid@, events@),
{
    let mut i: usize = 0;
    while i < events.len()
        invariant
            i <= events.len(),
            forall|j: int| 0 <= j < i ==> grid@.dom().contains(event_cell(#[trigger] events@[j])),
        decreases events.len() - i,
    {
        if !grid.contains(cell_of(events[i])) {
            return false;
        }
        i += 1;
    }
    true
}

/// Runs one cycle: turns each event of the batch into its signal and
/// carries the signal out before turning to the next event. The answer lists
/// the redraws in the order in which they came about. A batch that names a
/// cell off the board is turned down as a whole: neither the board nor the
/// selected tool changes.
pub fn run_cycle(grid: &mut Grid, session: &mut CellEditMode, events: &Vec<PointerEvent>) -> (outcome:
    Result<Vec<ColorUpdate>, GridError>)
    requires
        old(grid).wf(),
    ensures
        final(grid).wf(),
        final(grid).spec_size() == old(grid).spec_size(),
        singletons_hold(final(grid)@),
        all_on_board(old(grid)@, events@) ==> final(grid)@ == cycle_board(
            old(grid)@,
            old(session).mode,
            events@,
        ),
        all_on_board(old(grid)@, events@) ==> final(session).mode == cycle_pending(
            old(session).mode,
            events@,
        ),
        all_on_board(old(grid)@, events@) ==> (outcome matches Ok(updates) && updates@
            == cycle_updates(old(grid)@, old(session).mode, events@)),
        !all_on_board(old(grid)@, events@) ==> outcome == Err::<Vec<ColorUpdate>, GridError>(
            GridError::OutOfBounds,
        ),
        !all_on_board(old(grid)@, events@) ==> final(grid)@ == old(grid)@ && *final(session) == *old(
            session,
        ),
{
    proof {
        grid.lemma_wf();
    }
    if !batch_on_board(grid, events) {
        return Err(GridError::OutOfBounds);
    }
    let ghost board = grid@;
    let ghost pending = session.mode;
    let ghost side = grid.spec_size();
    let mut updates: Vec<ColorUpdate> = Vec::new();
    let mut k: usize = 0;
    while k < events.len()
        invariant
            k <= events.len(),
            grid.wf(),
            grid.spec_size() == side,
            crate::board::is_board(board, side),
            all_on_board(board, events@),
            grid@ == cycle_board(board, pending, events@.take(k as int)),
            session.mode == cycle_pending(pending, events@.take(k as int)),
            updates@ == cycle_updates(board, pending, events@.take(k as int)),
        decreases events.len() - k,
    {
        let event = events[k];
        proof {
            grid.lemma_wf();
            assert(events@.take(k + 1).drop_last() =~= events@.take(k as int));
            assert(events@.take(k + 1).last() == event);
            assert(board.dom().contains(event_cell(events@[k as int])));
        }
        match translate(session, event) {
            Some(signal) => {
                let mut more = grid.carry_out(signal);
                updates.append(&mut more);
            },
            None => {
                assert(updates@ + Seq::<ColorUpdate>::empty() =~= updates@);
            },
        }
        k += 1;
    }
    proof {
        grid.lemma_wf();
        assert(events@.take(events@.len() as int) =~= events@);
    }
    Ok(updates)
}

} // verus!
