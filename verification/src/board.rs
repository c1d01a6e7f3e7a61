//! The mathematical model of the editor: a board is a map from cells to their
//! records, and every operation of the editor is a function on boards.

use crate::cell::{Cell, CellHovered, CellRecord, CellState};
use crate::color::{shown_color, Color};
use crate::input::{CellClicked, Signal};
use vstd::prelude::*;

verus! {

/// A board: what each cell holds.
pub type Board = Map<Cell, CellRecord>;

/// A cell whose colour has to be redrawn, with the colour it now shows.
#[derive(Clone, Copy, Debug, PartialEq, Eq, Structural)]
pub struct ColorUpdate {
    pub cell: Cell,
    pub color: Color,
}

/// `c` lies on a square board of side `n`.
pub open spec fn on_board(n: nat, c: Cell) -> bool {
    c.x < n && c.y < n
}

/// `m` has a record for each cell of the square of side `n`, and for no other.
pub open spec fn is_board(m: Board, n: nat) -> bool {
    forall|c: Cell| #[trigger] m.dom().contains(c) <==> on_board(n, c)
}

/// The board of side `n` on which every cell is empty and not hovered.
pub open spec fn blank_board(n: nat) -> Board {
    Map::new(|c: Cell| on_board(n, c), |c: Cell| CellRecord::blank())
}

/// `c` is a cell of `m` whose role is `role`.
pub open spec fn holds(m: Board, c: Cell, role: CellState) -> bool {
    m.dom().contains(c) && m[c].state == role
}

/// The cells of `m` whose role is `role`.
pub open spec fn holders(m: Board, role: CellState) -> Set<Cell> {
    Set::new(|c: Cell| holds(m, c, role))
}

/// No two cells of `m` have the role `role`.
pub open spec fn at_most_one(m: Board, role: CellState) -> bool {
    forall|a: Cell, b: Cell| #[trigger] holds(m, a, role) && #[trigger] holds(m, b, role) ==> a == b
}

/// The board keeps the two singleton roles single.
pub open spec fn singletons_hold(m: Board) -> bool {
    at_most_one(m, CellState::Start) && at_most_one(m, CellState::End)
}

/// A cell that has the role `role`, if there is one.
pub open spec fn holder(m: Board, role: CellState) -> Option<Cell> {
    if exists|c: Cell| holds(m, c, role) {
        Some(choose|c: Cell| holds(m, c, role))
    } else {
        None
    }
}

/// The role of cell `c` once `target` has been painted into `role`: the target
/// takes the role, another cell that had a singleton role now asked for
/// becomes empty, and every other cell keeps its role.
pub open spec fn painted_state(m: Board, c: Cell, target: Cell, role: CellState) -> CellState {
    if c == target {
        role
    } else if role.is_singleton() && holds(m, c, role) {
        CellState::Empty
    } else {
        m[c].state
    }
}

/// The board after `target` has been painted into `role`. A target that is
/// not on the board leaves the board as it was. Hover flags are kept.
pub open spec fn paint(m: Board, target: Cell, role: CellState) -> Board {
    if m.dom().contains(target) {
        Map::new(
            |c: Cell| m.dom().contains(c),
            |c: Cell| CellRecord { state: painted_state(m, c, target, role), hovered: m[c].hovered },
        )
    } else {
        m
    }
}

/// The board after the hover flag of `cell` has been set to `flag`. Roles are
/// kept.
pub open spec fn hover(m: Board, cell: Cell, flag: bool) -> Board {
    if m.dom().contains(cell) {
        m.insert(cell, CellRecord { state: m[cell].state, hovered: CellHovered(flag) })
    } else {
        m
    }
}

/// The colour that cell `c` of `m` shows.
pub open spec fn color_at(m: Board, c: Cell) -> Color {
    shown_color(m[c].state, m[c].hovered.0)
}

/// The cells that painting `target` into `role` demotes to empty, on a board
/// where at most one cell has the role: the former holder of a singleton
/// role, unless it is the target itself.
pub open spec fn demoted(m: Board, target: Cell, role: CellState) -> Seq<Cell> {
    match holder(m, role) {
        Some(former) => if role.is_singleton() && former != target {
            seq![former]
        } else {
            seq![]
        },
        None => seq![],
    }
}

/// The redraws of the cells that painting `target` into `role` demotes.
pub open spec fn demotion_updates(m: Board, target: Cell, role: CellState) -> Seq<ColorUpdate> {
    demoted(m, target, role).map_values(
        |former: Cell|
            ColorUpdate { cell: former, color: shown_color(CellState::Empty, m[former].hovered.0) },
    )
}

/// The redraw of the painted cell itself, if its role changes.
pub open spec fn target_updates(m: Board, target: Cell, role: CellState) -> Seq<ColorUpdate> {
    if m[target].state != role {
        seq![ColorUpdate { cell: target, color: shown_color(role, m[target].hovered.0) }]
    } else {
        seq![]
    }
}

/// The redraws that painting `target` into `role` calls for: the demoted cell
/// first, then the target. A cell whose role stays as it was is not listed.
pub open spec fn paint_updates(m: Board, target: Cell, role: CellState) -> Seq<ColorUpdate> {
    if m.dom().contains(target) {
        demotion_updates(m, target, role) + target_updates(m, target, role)
    } else {
        seq![]
    }
}

/// The redraws that setting the hover flag of `cell` to `flag` calls for: the
/// cell, if its flag changes.
pub open spec fn hover_updates(m: Board, cell: Cell, flag: bool) -> Seq<ColorUpdate> {
    if m.dom().contains(cell) && m[cell].hovered.0 != flag {
        seq![ColorUpdate { cell, color: shown_color(m[cell].state, flag) }]
    } else {
        seq![]
    }
}

/// The `i`-th entry of the snapshot of a board of side `n`: the cell in
/// column `i / n` and row `i % n`, with its role and hover flag.
pub open spec fn snapshot_entry(m: Board, n: nat, i: int) -> (usize, usize, CellState, bool) {
    let c = Cell { x: (i / n as int) as usize, y: (i % n as int) as usize };
    (c.x, c.y, m[c].state, m[c].hovered.0)
}

/// The snapshot of a board of side `n`: every cell once, column by column.
pub open spec fn snapshot_of(m: Board, n: nat) -> Seq<(usize, usize, CellState, bool)> {
    Seq::new(n * n, |i: int| snapshot_entry(m, n, i))
}

/// What a display shows: the colour drawn for each cell.
pub type Screen = Map<Cell, Color>;

/// The display shows every cell of `m` in the colour that the cell has on `m`.
pub open spec fn in_sync(screen: Screen, m: Board) -> bool {
    forall|c: Cell| #[trigger]
        m.dom().contains(c) ==> screen.dom().contains(c) && screen[c] == color_at(m, c)
}

/// The display after a list of redraws has been drawn, first to last.
pub open spec fn draw(screen: Screen, updates: Seq<ColorUpdate>) -> Screen
    decreases updates.len(),
{
    if updates.len() == 0 {
        screen
    } else {
        draw(screen, updates.drop_last()).insert(updates.last().cell, updates.last().color)
    }
}

/// The cell that a signal is addressed to.
pub open spec fn signal_cell(signal: Signal) -> Cell {
    match signal {
        Signal::Hover(h) => h.cell,
        Signal::Edit(e) => e.cell,
    }
}

/// The board after one signal.
pub open spec fn step(m: Board, signal: Signal) -> Board {
    match signal {
        Signal::Hover(h) => hover(m, h.cell, h.hovered),
        Signal::Edit(e) => paint(m, e.cell, e.new_state),
    }
}

/// The redraws that one signal calls for.
pub open spec fn step_updates(m: Board, signal: Signal) -> Seq<ColorUpdate> {
    match signal {
        Signal::Hover(h) => hover_updates(m, h.cell, h.hovered),
        Signal::Edit(e) => paint_updates(m, e.cell, e.new_state),
    }
}

/// The board after a sequence of edit requests, applied in arrival order.
pub open spec fn paint_all(m: Board, requests: Seq<CellClicked>) -> Board
    decreases requests.len(),
{
    if requests.len() == 0 {
        m
    } else {
        let last = requests.last();
        paint(paint_all(m, requests.drop_last()), last.cell, last.new_state)
    }
}

/// If `h` has the role and no two cells have it, `h` is the holder.
pub proof fn lemma_holder_is(m: Board, role: CellState, h: Cell)
    requires
        at_most_one(m, role),
        holds(m, h, role),
    ensures
        holder(m, role) == Some(h),
{
    let c = choose|c: Cell| holds(m, c, role);
    assert(holds(m, c, role));
}

/// If no cell has the role, there is no holder.
pub proof fn lemma_holder_none(m: Board, role: CellState)
    requires
        forall|c: Cell| !#[trigger] holds(m, c, role),
    ensures
        holder(m, role) is None,
{
}

/// What `holder` returns has the role, and nothing has it where `holder`
/// returns nothing.
pub proof fn lemma_holder_sound(m: Board, role: CellState)
    ensures
        holder(m, role) matches Some(h) ==> holds(m, h, role),
        holder(m, role) is None ==> forall|c: Cell| !#[trigger] holds(m, c, role),
{
}

/// Painting keeps the board's cells and keeps both singleton roles single.
pub proof fn lemma_paint_keeps_singletons(m: Board, target: Cell, role: CellState)
    requires
        singletons_hold(m),
    ensures
        paint(m, target, role).dom() == m.dom(),
        singletons_hold(paint(m, target, role)),
{
    let p = paint(m, target, role);
    assert(p.dom() =~= m.dom());
    assert forall|a: Cell, b: Cell| #[trigger]
        holds(p, a, CellState::Start) && #[trigger] holds(p, b, CellState::Start) implies a
        == b by {
        lemma_painted_holder_was(m, target, role, CellState::Start, a);
        lemma_painted_holder_was(m, target, role, CellState::Start, b);
    }
    assert forall|a: Cell, b: Cell| #[trigger]
        holds(p, a, CellState::End) && #[trigger] holds(p, b, CellState::End) implies a == b by {
        lemma_painted_holder_was(m, target, role, CellState::End, a);
        lemma_painted_holder_was(m, target, role, CellState::End, b);
    }
}

/// A cell that has a singleton role after painting is the target, painted
/// into that role, or another cell that had the role before while the
/// painting asked for a different role.
proof fn lemma_painted_holder_was(
    m: Board,
    target: Cell,
    role: CellState,
    single: CellState,
    c: Cell,
)
    requires
        single.is_singleton(),
        holds(paint(m, target, role), c, single),
    ensures
        m.dom().contains(c),
        m.dom().contains(target) && c == target ==> role == single,
        !(m.dom().contains(target) && c == target) ==> holds(m, c, single),
        m.dom().contains(target) && c != target ==> role != single,
{
}

/// Who holds a singleton role after painting: the target, if it was painted
/// into that role; nobody, if the target held the role and was painted into
/// another; otherwise whoever held it before.
pub proof fn lemma_paint_holder(m: Board, target: Cell, role: CellState, single: CellState)
    requires
        single.is_singleton(),
        at_most_one(m, single),
        m.dom().contains(target),
    ensures
        role == single ==> holder(paint(m, target, role), single) == Some(target),
        role != single && holds(m, target, single) ==> holder(paint(m, target, role), single)
            is None,
        role != single && !holds(m, target, single) ==> holder(paint(m, target, role), single)
            == holder(m, single),
{
    let p = paint(m, target, role);
    assert forall|a: Cell, b: Cell| #[trigger] holds(p, a, single) && #[trigger] holds(
        p,
        b,
        single,
    ) implies a == b by {
        lemma_painted_holder_was(m, target, role, single, a);
        lemma_painted_holder_was(m, target, role, single, b);
    }
    if role == single {
        assert(holds(p, target, single));
        lemma_holder_is(p, single, target);
    } else if holds(m, target, single) {
        assert forall|c: Cell| !#[trigger] holds(p, c, single) by {
            if holds(p, c, single) {
                lemma_painted_holder_was(m, target, role, single, c);
            }
        }
    } else {
        match holder(m, single) {
            Some(h) => {
                assert(holds(m, h, single));
                assert(holds(p, h, single));
                lemma_holder_is(p, single, h);
            },
            None => {
                assert forall|c: Cell| !#[trigger] holds(p, c, single) by {
                    if holds(p, c, single) {
                        lemma_painted_holder_was(m, target, role, single, c);
                        assert(holds(m, c, single));
                    }
                }
            },
        }
    }
}

/// A change of hover keeps the board's cells, every role, and so the holder
/// of each role.
pub proof fn lemma_hover_keeps_holder(m: Board, cell: Cell, flag: bool, role: CellState)
    requires
        at_most_one(m, role),
    ensures
        hover(m, cell, flag).dom() == m.dom(),
        forall|c: Cell| #[trigger] holds(hover(m, cell, flag), c, role) == holds(m, c, role),
        at_most_one(hover(m, cell, flag), role),
        holder(hover(m, cell, flag), role) == holder(m, role),
{
    let p = hover(m, cell, flag);
    assert(p.dom() =~= m.dom());
    assert forall|a: Cell, b: Cell| #[trigger] holds(p, a, role) && #[trigger] holds(
        p,
        b,
        role,
    ) implies a == b by {
        assert(holds(m, a, role) && holds(m, b, role));
    }
    match holder(m, role) {
        Some(h) => {
            assert(holds(m, h, role));
            assert(holds(p, h, role));
            lemma_holder_is(p, role, h);
        },
        None => {
            assert forall|c: Cell| !#[trigger] holds(p, c, role) by {
                assert(holds(p, c, role) == holds(m, c, role));
            }
        },
    }
}

} // verus!
