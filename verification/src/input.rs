//! Pointer events and the signals they give rise to.

use crate::cell::{Cell, CellState};
use crate::session::CellEditMode;
use vstd::prelude::*;

verus! {

/// A raw pointer event, addressed to a cell.
#[derive(Clone, Copy, Debug, PartialEq, Eq, Structural)]
pub enum PointerEvent {
    Over(Cell),
    Out(Cell),
    Click(Cell),
}

/// The pointer came to rest on a cell, or left it.
#[derive(Clone, Copy, Debug, PartialEq, Eq, Structural)]
pub struct HoverChanged {
    pub cell: Cell,
    pub hovered: bool,
}

/// A request to paint a cell into a role.
#[derive(Clone, Copy, Debug, PartialEq, Eq, Structural)]
pub struct CellClicked {
    pub cell: Cell,
    pub new_state: CellState,
}

/// What a pointer event asks of the board.
#[derive(Clone, Copy, Debug, PartialEq, Eq, Structural)]
pub enum Signal {
    Hover(HoverChanged),
    Edit(CellClicked),
}

/// The signal that an event gives rise to while `pending` is the selected
/// tool. Entering a cell highlights it only while a tool is selected; leaving
/// a cell always clears the highlight; a click paints only with a tool.
pub open spec fn signal_of(pending: Option<CellState>, event: PointerEvent) -> Option<Signal> {
    match event {
        PointerEvent::Over(cell) => if pending is Some {
            Some(Signal::Hover(HoverChanged { cell, hovered: true }))
        } else {
            None
        },
        PointerEvent::Out(cell) => Some(Signal::Hover(HoverChanged { cell, hovered: false })),
        PointerEvent::Click(cell) => match pending {
            Some(role) => Some(Signal::Edit(CellClicked { cell, new_state: role })),
            None => None,
        },
    }
}

/// The selected tool after an event: a click uses it up, nothing else
/// touches it.
pub open spec fn pending_after(pending: Option<CellState>, event: PointerEvent) -> Option<
    CellState,
> {
    match event {
        PointerEvent::Click(_) => None,
        _ => pending,
    }
}

/// The pointer entered `cell`. Asks for a highlight if a tool is selected, and
/// for nothing otherwise.
pub fn on_mouse_over(session: &CellEditMode, cell: Cell) -> (signal: Option<HoverChanged>)
    ensures
        session.mode is Some ==> signal == Some(HoverChanged { cell, hovered: true }),
        session.mode is None ==> signal is None,
{
    if session.mode.is_none() {
        return None;
    }
    Some(HoverChanged { cell, hovered: true })
}

/// The pointer left `cell`. Always asks for the highlight to be cleared.
pub fn on_mouse_out(cell: Cell) -> (signal: HoverChanged)
    ensures
        signal == (HoverChanged { cell, hovered: false }),
{
    HoverChanged { cell, hovered: false }
}

/// The pointer clicked `cell`. With a tool selected, asks for the cell to be
/// painted into the tool's role and puts the tool down in the same step;
/// without one, asks for nothing.
pub fn on_click(session: &mut CellEditMode, cell: Cell) -> (request: Option<CellClicked>)
    ensures
        final(session).mode is None,
        old(session).mode matches Some(role) ==> request == Some(
            CellClicked { cell, new_state: role },
        ),
        old(session).mode is None ==> request is None,
{
    match session.mode {
        Some(role) => {
            session.mode = None;
            Some(CellClicked { cell, new_state: role })
        },
        None => None,
    }
}

/// The signal that one pointer event stands for, if any; a click puts the tool
/// down.
pub fn translate(session: &mut CellEditMode, event: PointerEvent) -> (signal: Option<Signal>)
    ensures
        signal == signal_of(old(session).mode, event),
        final(session).mode == pending_after(old(session).mode, event),
{
    match event {
        PointerEvent::Over(cell) => match on_mouse_over(session, cell) {
            Some(hover) => Some(Signal::Hover(hover)),
            None => None,
        },
        PointerEvent::Out(cell) => Some(Signal::Hover(on_mouse_out(cell))),
        PointerEvent::Click(cell) => match on_click(session, cell) {
            Some(request) => Some(Signal::Edit(request)),
            None => None,
        },
    }
}

} // verus!
