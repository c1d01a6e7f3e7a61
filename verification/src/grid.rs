//! The board as the editor holds it, and the operations that change it.

use crate::board::{
    blank_board, color_at, demoted, holder, holds, hover, hover_updates, is_board,
    lemma_holder_is, lemma_holder_none, lemma_holder_sound, lemma_hover_keeps_holder,
    lemma_paint_holder, lemma_paint_keeps_singletons, on_board, paint, paint_updates,
    signal_cell, singletons_hold, snapshot_entry, snapshot_of, step, step_updates, Board,
    ColorUpdate,
};
use crate::cell::{Cell, CellHovered, CellRecord, CellState};
use crate::color::{displayed_color, Color};
use crate::input::{CellClicked, HoverChanged, Signal};
use vstd::prelude::*;

verus! {

/// Why the board turned a signal down.
#[derive(Clone, Copy, Debug, PartialEq, Eq, Structural)]
pub enum GridError {
    /// The signal names a cell that is not on the board.
    OutOfBounds,
}

/// A square board of cells. It is created once, with every cell empty, and
/// never gains or loses a cell. Besides the cells it remembers which cell is
/// the start and which is the end, so that neither has to be searched for.
#[derive(Debug)]
pub struct Grid {
    size: usize,
    cells: Vec<Vec<CellRecord>>,
    start: Option<Cell>,
    end: Option<Cell>,
}

impl View for Grid {
    type V = Board;

    closed spec fn view(&self) -> Board {
        Map::new(
            |c: Cell| c.x < self.size && c.y < self.size,
            |c: Cell| self.cells@[c.x as int]@[c.y as int],
        )
    }
}

impl Grid {
    /// The side of the board.
    pub closed spec fn spec_size(&self) -> nat {
        self.size as nat
    }

    /// There are `size` columns of `size` records each.
    spec fn shaped(&self) -> bool {
        &&& self.cells@.len() == self.size
        &&& forall|x: int| 0 <= x < self.size ==> (#[trigger] self.cells@[x])@.len() == self.size
    }

    /// The board is square, no singleton role is held twice, and the
    /// remembered start and end are the cells that hold those roles.
    pub closed spec fn wf(&self) -> bool {
        &&& self.shaped()
        &&& singletons_hold(self@)
        &&& self.start == holder(self@, CellState::Start)
        &&& self.end == holder(self@, CellState::End)
    }

    /// What a well-formed grid guarantees of its board.
    pub proof fn lemma_wf(&self)
        requires
            self.wf(),
        ensures
            is_board(self@, self.spec_size()),
            singletons_hold(self@),
    {
    }

    /// The side of the board.
    pub fn size(&self) -> (n: usize)
        ensures
            n == self.spec_size(),
    {
        self.size
    }

    /// Whether `cell` lies on the board.
    pub fn contains(&self, cell: Cell) -> (b: bool)
        ensures
            b == self@.dom().contains(cell),
            b == on_board(self.spec_size(), cell),
    {
        cell.x < self.size && cell.y < self.size
    }

    /// The record of a cell.
    pub fn record(&self, cell: Cell) -> (r: CellRecord)
        requires
            self.wf(),
            self@.dom().contains(cell),
        ensures
            r == self@[cell],
    {
        self.cells[cell.x][cell.y]
    }

    /// The role of the cell at `(x, y)`.
    pub fn get(&self, x: usize, y: usize) -> (state: CellState)
        requires
            self.wf(),
            self@.dom().contains(Cell { x, y }),
        ensures
            state == self@[Cell { x, y }].state,
    {
        self.cells[x][y].state
    }

    /// Whether the pointer rests on `cell`.
    pub fn is_hovered(&self, cell: Cell) -> (b: bool)
        requires
            self.wf(),
            self@.dom().contains(cell),
        ensures
            b == self@[cell].hovered.0,
    {
        self.cells[cell.x][cell.y].hovered.0
    }

    /// The start cell, if one has been designated.
    pub fn start_cell(&self) -> (c: Option<Cell>)
        requires
            self.wf(),
        ensures
            c == holder(self@, CellState::Start),
            forall|cell: Cell| #[trigger] holds(self@, cell, CellState::Start) <==> c == Some(cell),
    {
        proof {
            lemma_holder_sound(self@, CellState::Start);
            assert forall|cell: Cell| #[trigger]
                holds(self@, cell, CellState::Start) implies self.start == Some(cell) by {
                lemma_holder_is(self@, CellState::Start, cell);
            }
        }
        self.start
    }

    /// The end cell, if one has been designated.
    pub fn end_cell(&self) -> (c: Option<Cell>)
        requires
            self.wf(),
        ensures
            c == holder(self@, CellState::End),
            forall|cell: Cell| #[trigger] holds(self@, cell, CellState::End) <==> c == Some(cell),
    {
        proof {
            lemma_holder_sound(self@, CellState::End);
            assert forall|cell: Cell| #[trigger]
                holds(self@, cell, CellState::End) implies self.end == Some(cell) by {
                lemma_holder_is(self@, CellState::End, cell);
            }
        }
        self.end
    }

    /// The colour that `cell` shows.
    pub fn displayed_color(&self, cell: Cell) -> (c: Color)
        requires
            self.wf(),
            self@.dom().contains(cell),
        ensures
            c == color_at(self@, cell),
    {
        let r = self.cells[cell.x][cell.y];
        displayed_color(r.state, r.hovered.0)
    }

    /// Overwrites the record of one cell.
    fn put(&mut self, c: Cell, record: CellRecord)
        requires
            old(self).shaped(),
            c.x < old(self).size,
            c.y < old(self).size,
        ensures
            final(self).shaped(),
            final(self).size == old(self).size,
            final(self).start == old(self).start,
            final(self).end == old(self).end,
            final(self)@ == old(self)@.insert(c, record),
    {
        self.cells[c.x][c.y] = record;
        assert(self@ =~= old(self)@.insert(c, record));
    }

    /// Paints `target` into `role`, demoting the former holder of a singleton
    /// role, and lists the cells whose role changed.
    fn repaint(&mut self, target: Cell, role: CellState) -> (updates: Vec<ColorUpdate>)
        requires
            old(self).wf(),
            old(self)@.dom().contains(target),
        ensures
            final(self).wf(),
            final(self).spec_size() == old(self).spec_size(),
            final(self)@ == paint(old(self)@, target, role),
            updates@ == paint_updates(old(self)@, target, role),
    {
        let ghost before_board = self@;
        proof {
            lemma_holder_sound(before_board, CellState::Start);
            lemma_holder_sound(before_board, CellState::End);
            lemma_paint_keeps_singletons(before_board, target, role);
            lemma_paint_holder(before_board, target, role, CellState::Start);
            lemma_paint_holder(before_board, target, role, CellState::End);
            if holds(before_board, target, CellState::Start) {
                lemma_holder_is(before_board, CellState::Start, target);
            }
            if holds(before_board, target, CellState::End) {
                lemma_holder_is(before_board, CellState::End, target);
            }
        }
        let mut updates: Vec<ColorUpdate> = Vec::new();
        let former = match role {
            CellState::Start => self.start,
            CellState::End => self.end,
            _ => None,
        };
        if let Some(h) = former {
            if h != target {
                let hovered = self.cells[h.x][h.y].hovered;
                self.put(h, CellRecord { state: CellState::Empty, hovered });
                updates.push(
                    ColorUpdate { cell: h, color: displayed_color(CellState::Empty, hovered.0) },
                );
            }
        }
        let before = self.cells[target.x][target.y];
        assert(before == self@[target]);
        if before.state != role {
            match before.state {
                CellState::Start => {
                    self.start = None;
                },
                CellState::End => {
                    self.end = None;
                },
                _ => {},
            }
            self.put(target, CellRecord { state: role, hovered: before.hovered });
            match role {
                CellState::Start => {
                    self.start = Some(target);
                },
                CellState::End => {
                    self.end = Some(target);
                },
                _ => {},
            }
            updates.push(
                ColorUpdate { cell: target, color: displayed_color(role, before.hovered.0) },
            );
        }
        proof {
            let painted = paint(before_board, target, role);
            assert forall|c: Cell| before_board.dom().contains(c) implies #[trigger] self@[c]
                == painted[c] by {
                if c != target && role.is_singleton() && holds(before_board, c, role) {
                    assert(former == Some(c));
                }
            }
            assert(self@ =~= painted);
            assert(updates@ =~= paint_updates(before_board, target, role));
        }
        updates
    }

    /// Gives the cell at `(x, y)` the role `role` and answers with the other
    /// cells whose role changed on the way: the former holder of a singleton
    /// role, demoted to empty. Coordinates off the board are turned down and
    /// change nothing.
    pub fn set(&mut self, x: usize, y: usize, role: CellState) -> (outcome: Result<
        Vec<Cell>,
        GridError,
    >)
        requires
            old(self).wf(),
        ensures
            final(self).wf(),
            final(self).spec_size() == old(self).spec_size(),
            final(self)@ == paint(old(self)@, Cell { x, y }, role),
            singletons_hold(final(self)@),
            old(self)@.dom().contains(Cell { x, y }) ==> (outcome matches Ok(others) && others@
                == demoted(old(self)@, Cell { x, y }, role)),
            !old(self)@.dom().contains(Cell { x, y }) ==> outcome == Err::<Vec<Cell>, GridError>(
                GridError::OutOfBounds,
            ),
            !old(self)@.dom().contains(Cell { x, y }) ==> final(self)@ == old(self)@,
    {
        let target = Cell { x, y };
        if !self.contains(target) {
            return Err(GridError::OutOfBounds);
        }
        let former = match role {
            CellState::Start => self.start,
            CellState::End => self.end,
            _ => None,
        };
        let mut others: Vec<Cell> = Vec::new();
        if let Some(h) = former {
            if h != target {
                others.push(h);
            }
        }
        assert(others@ =~= demoted(self@, target, role));
        let _ = self.repaint(target, role);
        Ok(others)
    }

    /// Applies one edit request. A request for a cell that is not on the board
    /// is turned down and changes nothing; any other request is carried out
    /// whole, demotion included, and answered with the cells to redraw.
    pub fn apply(&mut self, request: CellClicked) -> (outcome: Result<Vec<ColorUpdate>, GridError>)
        requires
            old(self).wf(),
        ensures
            final(self).wf(),
            final(self).spec_size() == old(self).spec_size(),
            final(self)@ == paint(old(self)@, request.cell, request.new_state),
            singletons_hold(final(self)@),
            old(self)@.dom().contains(request.cell) ==> (outcome matches Ok(updates) && updates@
                == paint_updates(old(self)@, request.cell, request.new_state)),
            !old(self)@.dom().contains(request.cell) ==> outcome == Err::<Vec<ColorUpdate>, GridError>(
                GridError::OutOfBounds,
            ),
            !old(self)@.dom().contains(request.cell) ==> final(self)@ == old(self)@,
    {
        if !self.contains(request.cell) {
            return Err(GridError::OutOfBounds);
        }
        Ok(self.carry_out(Signal::Edit(request)))
    }

    /// Carries out one signal, an edit or a change of hover. A signal for a
    /// cell that is not on the board is turned down and changes nothing.
    pub fn dispatch(&mut self, signal: Signal) -> (outcome: Result<Vec<ColorUpdate>, GridError>)
        requires
            old(self).wf(),
        ensures
            final(self).wf(),
            final(self).spec_size() == old(self).spec_size(),
            final(self)@ == step(old(self)@, signal),
            singletons_hold(final(self)@),
            old(self)@.dom().contains(signal_cell(signal)) ==> (outcome matches Ok(
                updates,
            ) && updates@ == step_updates(old(self)@, signal)),
            !old(self)@.dom().contains(signal_cell(signal)) ==> outcome == Err::<
                Vec<ColorUpdate>,
                GridError,
            >(GridError::OutOfBounds),
            !old(self)@.dom().contains(signal_cell(signal)) ==> final(self)@ == old(self)@,
    {
        let cell = match signal {
            Signal::Hover(change) => change.cell,
            Signal::Edit(request) => request.cell,
        };
        if !self.contains(cell) {
            return Err(GridError::OutOfBounds);
        }
        Ok(self.carry_out(signal))
    }

    /// Carries out one signal for a cell of the board.
    pub fn carry_out(&mut self, signal: Signal) -> (updates: Vec<ColorUpdate>)
        requires
            old(self).wf(),
            old(self)@.dom().contains(signal_cell(signal)),
        ensures
            final(self).wf(),
            final(self).spec_size() == old(self).spec_size(),
            final(self)@ == step(old(self)@, signal),
            singletons_hold(final(self)@),
            updates@ == step_updates(old(self)@, signal),
    {
        match signal {
            Signal::Hover(change) => cell_hovered(self, change),
            Signal::Edit(request) => match request.new_state {
                CellState::Empty => process_empty_cell(self, request.cell),
                CellState::Wall => process_wall_cell(self, request.cell),
                CellState::Start => process_start_cell(self, request.cell),
                CellState::End => process_end_cell(self, request.cell),
            },
        }
    }

    /// Every cell of the board with its coordinates, role and hover flag,
    /// column by column.
    pub fn snapshot(&self) -> (cells: Vec<(usize, usize, CellState, bool)>)
        requires
            self.wf(),
        ensures
            cells@ == snapshot_of(self@, self.spec_size()),
    {
        let n = self.size;
        let mut cells: Vec<(usize, usize, CellState, bool)> = Vec::new();
        let mut x: usize = 0;
        while x < n
            invariant
                self.wf(),
                n == self.size,
                x <= n,
                cells@.len() == x * n,
                forall|i: int| 0 <= i < cells@.len() ==> #[trigger] cells@[i] == snapshot_entry(self@, n as nat, i),
            decreases n - x,
        {
            let mut y: usize = 0;
            while y < n
                invariant
                    self.wf(),
                    n == self.size,
                    x < n,
                    y <= n,
                    cells@.len() == x * n + y,
                    forall|i: int| 0 <= i < cells@.len() ==> #[trigger] cells@[i] == snapshot_entry(self@, n as nat, i),
                decreases n - y,
            {
                let r = self.cells[x][y];
                proof {
                    vstd::arithmetic::div_mod::lemma_fundamental_div_mod_converse(
                        x * n + y,
                        n as int,
                        x as int,
                        y as int,
                    );
                }
                cells.push((x, y, r.state, r.hovered.0));
                y += 1;
            }
            assert((x + 1) * n == x * n + n) by (nonlinear_arith);
            x += 1;
        }
        assert(cells@ =~= snapshot_of(self@, self.spec_size()));
        cells
    }
}

/// Creates the board of side `num_cells`: every cell empty, none hovered, no
/// start and no end.
pub fn setup(num_cells: usize) -> (grid: Grid)
    ensures
        grid.wf(),
        grid.spec_size() == num_cells,
        grid@ == blank_board(num_cells as nat),
{
    let mut cells: Vec<Vec<CellRecord>> = Vec::new();
    let mut x: usize = 0;
    while x < num_cells
        invariant
            x <= num_cells,
            cells@.len() == x,
            forall|i: int|
                0 <= i < x ==> (#[trigger] cells@[i])@.len() == num_cells && forall|j: int|
                    0 <= j < num_cells ==> cells@[i]@[j] == CellRecord::blank(),
        decreases num_cells - x,
    {
        let mut column: Vec<CellRecord> = Vec::new();
        let mut y: usize = 0;
        while y < num_cells
            invariant
                y <= num_cells,
                column@.len() == y,
                forall|j: int| 0 <= j < y ==> column@[j] == CellRecord::blank(),
            decreases num_cells - y,
        {
            column.push(CellRecord { state: CellState::Empty, hovered: CellHovered(false) });
            y += 1;
        }
        cells.push(column);
        x += 1;
    }
    let grid = Grid { size: num_cells, cells, start: None, end: None };
    proof {
        assert(grid@ =~= blank_board(num_cells as nat));
        lemma_holder_none(grid@, CellState::Start);
        lemma_holder_none(grid@, CellState::End);
    }
    grid
}

/// Clears `target`. No other cell changes. Lists the target if its role
/// changed.
pub fn process_empty_cell(grid: &mut Grid, target: Cell) -> (updates: Vec<ColorUpdate>)
    requires
        old(grid).wf(),
        old(grid)@.dom().contains(target),
    ensures
        final(grid).wf(),
        final(grid).spec_size() == old(grid).spec_size(),
        final(grid)@ == paint(old(grid)@, target, CellState::Empty),
        updates@ == paint_updates(old(grid)@, target, CellState::Empty),
{
    grid.repaint(target, CellState::Empty)
}

/// Turns `target` into a wall. If it was the start or the end, the board is
/// left without one. No other cell changes.
pub fn process_wall_cell(grid: &mut Grid, target: Cell) -> (updates: Vec<ColorUpdate>)
    requires
        old(grid).wf(),
        old(grid)@.dom().contains(target),
    ensures
        final(grid).wf(),
        final(grid).spec_size() == old(grid).spec_size(),
        final(grid)@ == paint(old(grid)@, target, CellState::Wall),
        updates@ == paint_updates(old(grid)@, target, CellState::Wall),
{
    grid.repaint(target, CellState::Wall)
}

/// Makes `target` the start. A different cell that was the start becomes
/// empty; a target that already is the start is left alone.
pub fn process_start_cell(grid: &mut Grid, target: Cell) -> (updates: Vec<ColorUpdate>)
    requires
        old(grid).wf(),
        old(grid)@.dom().contains(target),
    ensures
        final(grid).wf(),
        final(grid).spec_size() == old(grid).spec_size(),
        final(grid)@ == paint(old(grid)@, target, CellState::Start),
        updates@ == paint_updates(old(grid)@, target, CellState::Start),
        holder(final(grid)@, CellState::Start) == Some(target),
{
    proof {
        lemma_paint_holder(grid@, target, CellState::Start, CellState::Start);
    }
    grid.repaint(target, CellState::Start)
}

/// Makes `target` the end. A different cell that was the end becomes empty; a
/// target that already is the end is left alone.
pub fn process_end_cell(grid: &mut Grid, target: Cell) -> (updates: Vec<ColorUpdate>)
    requires
        old(grid).wf(),
        old(grid)@.dom().contains(target),
    ensures
        final(grid).wf(),
        final(grid).spec_size() == old(grid).spec_size(),
        final(grid)@ == paint(old(grid)@, target, CellState::End),
        updates@ == paint_updates(old(grid)@, target, CellState::End),
        holder(final(grid)@, CellState::End) == Some(target),
{
    proof {
        lemma_paint_holder(grid@, target, CellState::End, CellState::End);
    }
    grid.repaint(target, CellState::End)
}

/// Sets the hover flag of a cell and lists the cell if the flag changed. Roles
/// are not touched.
pub fn cell_hovered(grid: &mut Grid, change: HoverChanged) -> (updates: Vec<ColorUpdate>)
    requires
        old(grid).wf(),
        old(grid)@.dom().contains(change.cell),
    ensures
        final(grid).wf(),
        final(grid).spec_size() == old(grid).spec_size(),
        final(grid)@ == hover(old(grid)@, change.cell, change.hovered),
        updates@ == hover_updates(old(grid)@, change.cell, change.hovered),
{
    let ghost before_board = grid@;
    proof {
        lemma_hover_keeps_holder(before_board, change.cell, change.hovered, CellState::Start);
        lemma_hover_keeps_holder(before_board, change.cell, change.hovered, CellState::End);
    }
    let mut updates: Vec<ColorUpdate> = Vec::new();
    let before = grid.cells[change.cell.x][change.cell.y];
    if before.hovered.0 != change.hovered {
        grid.put(
            change.cell,
            CellRecord { state: before.state, hovered: CellHovered(change.hovered) },
        );
        updates.push(
            ColorUpdate {
                cell: change.cell,
                color: displayed_color(before.state, change.hovered),
            },
        );
    }
    proof {
        assert(grid@ =~= hover(before_board, change.cell, change.hovered));
        assert(updates@ =~= hover_updates(before_board, change.cell, change.hovered));
    }
    updates
}

} // verus!
