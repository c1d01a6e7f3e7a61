//! Cells, their roles and their hover flag.

use vstd::prelude::*;

verus! {

/// The role of a cell. A cell has exactly one role at any time.
#[derive(Clone, Copy, Debug, PartialEq, Eq, Structural)]
pub enum CellState {
    Empty,
    Wall,
    Start,
    End,
}

impl CellState {
    /// Whether at most one cell of a board may hold this role.
    pub open spec fn is_singleton(self) -> bool {
        self == CellState::Start || self == CellState::End
    }

    /// The role's name as a sequence of characters.
    pub open spec fn spec_label(self) -> Seq<char> {
        match self {
            CellState::Empty => "Empty"@,
            CellState::Wall => "Wall"@,
            CellState::Start => "Start"@,
            CellState::End => "End"@,
        }
    }

    /// The role's name: `Empty`, `Wall`, `Start` or `End`.
    pub fn label(&self) -> (name: String)
        ensures
            name@ == self.spec_label(),
    {
        match self {
            CellState::Empty => "Empty".to_owned(),
            CellState::Wall => "Wall".to_owned(),
            CellState::Start => "Start".to_owned(),
            CellState::End => "End".to_owned(),
        }
    }

    /// The role that three marker flags stand for. A start marker wins over an
    /// end marker, an end marker over a wall marker; with no marker the cell is
    /// empty.
    pub fn from_components(has_wall: bool, has_start: bool, has_end: bool) -> (state: CellState)
        ensures
            has_start ==> state == CellState::Start,
            !has_start && has_end ==> state == CellState::End,
            !has_start && !has_end && has_wall ==> state == CellState::Wall,
            !has_start && !has_end && !has_wall ==> state == CellState::Empty,
    {
        if has_start {
            CellState::Start
        } else if has_end {
            CellState::End
        } else if has_wall {
            CellState::Wall
        } else {
            CellState::Empty
        }
    }
}

/// The coordinates of a cell: column `x` and row `y`.
#[derive(Clone, Copy, Debug, PartialEq, Eq, Hash, Structural)]
pub struct Cell {
    pub x: usize,
    pub y: usize,
}

/// Whether the pointer rests on a cell. Transient: no part of the board's
/// logical state.
#[derive(Clone, Copy, Debug, PartialEq, Eq, Structural)]
pub struct CellHovered(pub bool);

impl Default for CellHovered {
    fn default() -> (flag: CellHovered)
        ensures
            flag == CellHovered(false),
    {
        CellHovered(false)
    }
}

/// What the board holds for one cell.
#[derive(Clone, Copy, Debug, PartialEq, Eq, Structural)]
pub struct CellRecord {
    pub state: CellState,
    pub hovered: CellHovered,
}

impl CellRecord {
    /// The record of a cell that nobody has touched yet.
    pub open spec fn blank() -> CellRecord {
        CellRecord { state: CellState::Empty, hovered: CellHovered(false) }
    }
}

} // verus!
