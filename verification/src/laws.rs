//! What holds of the editor whatever it is asked to do, proved over the
//! board model that the operations' contracts are stated in.

use crate::board::{
    at_most_one, color_at, demotion_updates, draw, in_sync, Screen, holder, holders, holds, lemma_holder_is,
    lemma_holder_sound, lemma_hover_keeps_holder, lemma_paint_holder,
    lemma_paint_keeps_singletons, paint, paint_all, paint_updates, singletons_hold, step,
    step_updates, target_updates, Board, ColorUpdate,
};
use crate::cell::{Cell, CellState};
use crate::color::shown_color;
use crate::cycle::{cycle_board, cycle_pending, cycle_updates, react, react_updates};
use crate::input::{pending_after, signal_of, CellClicked, PointerEvent, Signal};
use vstd::prelude::*;

verus! {

/// Where no two cells have a role, the set of cells that have it is finite
/// and holds at most one cell.
pub proof fn lemma_count_at_most_one(m: Board, role: CellState)
    requires
        at_most_one(m, role),
    ensures
        holders(m, role).finite(),
        holders(m, role).len() <= 1,
{
    let s = holders(m, role);
    if exists|c: Cell| holds(m, c, role) {
        let c = choose|c: Cell| holds(m, c, role);
        assert forall|d: Cell| s.contains(d) implies d == c by {
            assert(holds(m, d, role) && holds(m, c, role));
        }
        assert(s =~= set![c]);
    } else {
        assert(s =~= Set::<Cell>::empty());
    }
}

/// Start from a board with at most one start and at most one end, and apply
/// any sequence of edit requests in order: after each of them the number of
/// start cells is at most one, and so is the number of end cells, and the
/// board still has the same cells.
pub proof fn lemma_singletons_after_each_request(m: Board, requests: Seq<CellClicked>, k: int)
    requires
        singletons_hold(m),
        0 <= k <= requests.len(),
    ensures
        paint_all(m, requests.take(k)).dom() == m.dom(),
        singletons_hold(paint_all(m, requests.take(k))),
        holders(paint_all(m, requests.take(k)), CellState::Start).finite(),
        holders(paint_all(m, requests.take(k)), CellState::Start).len() <= 1,
        holders(paint_all(m, requests.take(k)), CellState::End).finite(),
        holders(paint_all(m, requests.take(k)), CellState::End).len() <= 1,
    decreases k,
{
    let prefix = requests.take(k);
    if k > 0 {
        lemma_singletons_after_each_request(m, requests, k - 1);
        assert(prefix.drop_last() =~= requests.take(k - 1));
        let earlier = paint_all(m, requests.take(k - 1));
        lemma_paint_keeps_singletons(earlier, prefix.last().cell, prefix.last().new_state);
    }
    lemma_count_at_most_one(paint_all(m, prefix), CellState::Start);
    lemma_count_at_most_one(paint_all(m, prefix), CellState::End);
}

/// A signal keeps the board's cells and keeps both singleton roles single.
pub proof fn lemma_step_keeps_singletons(m: Board, signal: Signal)
    requires
        singletons_hold(m),
    ensures
        step(m, signal).dom() == m.dom(),
        singletons_hold(step(m, signal)),
{
    match signal {
        Signal::Hover(h) => {
            lemma_hover_keeps_holder(m, h.cell, h.hovered, CellState::Start);
            lemma_hover_keeps_holder(m, h.cell, h.hovered, CellState::End);
        },
        Signal::Edit(e) => {
            lemma_paint_keeps_singletons(m, e.cell, e.new_state);
        },
    }
}

/// Whatever pointer events a cycle is made of and whatever tool is selected
/// when it begins, a board with at most one start and at most one end has at
/// most one of each after the cycle, and still the same cells.
pub proof fn lemma_cycle_keeps_singletons(
    m: Board,
    pending: Option<CellState>,
    events: Seq<PointerEvent>,
)
    requires
        singletons_hold(m),
    ensures
        cycle_board(m, pending, events).dom() == m.dom(),
        singletons_hold(cycle_board(m, pending, events)),
    decreases events.len(),
{
    if events.len() > 0 {
        lemma_cycle_keeps_singletons(m, pending, events.drop_last());
        let earlier = cycle_board(m, pending, events.drop_last());
        match signal_of(cycle_pending(pending, events.drop_last()), events.last()) {
            Some(signal) => {
                lemma_step_keeps_singletons(earlier, signal);
            },
            None => {},
        }
    }
}

/// A click made with a tool selected paints the clicked cell and puts the
/// tool down; the click that follows it, with no tool selected in between,
/// changes nothing and asks for no redraw.
pub proof fn lemma_click_consumes_tool(m: Board, role: CellState, first: Cell, second: Cell)
    ensures
        react(m, Some(role), PointerEvent::Click(first)) == paint(m, first, role),
        pending_after(Some(role), PointerEvent::Click(first)) is None,
        react(paint(m, first, role), None, PointerEvent::Click(second)) == paint(m, first, role),
        react_updates(paint(m, first, role), None, PointerEvent::Click(second)).len() == 0,
        pending_after(None, PointerEvent::Click(second)) is None,
{
}

/// If cell `a` holds a singleton role, alone, and another cell `b` of the
/// board is painted into that role, then `a` becomes empty and `b` takes the
/// role; both are redrawn, `a` first, and each keeps its hover flag.
pub proof fn lemma_demotion(m: Board, role: CellState, a: Cell, b: Cell)
    requires
        role.is_singleton(),
        at_most_one(m, role),
        holds(m, a, role),
        m.dom().contains(b),
        a != b,
    ensures
        paint(m, b, role)[a].state == CellState::Empty,
        paint(m, b, role)[b].state == role,
        paint(m, b, role)[a].hovered == m[a].hovered,
        paint(m, b, role)[b].hovered == m[b].hovered,
        holder(paint(m, b, role), role) == Some(b),
        paint_updates(m, b, role) == seq![
            ColorUpdate { cell: a, color: shown_color(CellState::Empty, m[a].hovered.0) },
            ColorUpdate { cell: b, color: shown_color(role, m[b].hovered.0) },
        ],
{
    lemma_holder_is(m, role, a);
    lemma_paint_holder(m, b, role, role);
    assert(!holds(m, b, role));
    assert(paint_updates(m, b, role) =~= seq![
        ColorUpdate { cell: a, color: shown_color(CellState::Empty, m[a].hovered.0) },
        ColorUpdate { cell: b, color: shown_color(role, m[b].hovered.0) },
    ]);
}

/// If cell `a` holds a singleton role, alone, and is painted into that role
/// once more, the board stays exactly as it was and nothing is redrawn: no
/// cell is cleared on the way.
pub proof fn lemma_self_target_changes_nothing(m: Board, role: CellState, a: Cell)
    requires
        role.is_singleton(),
        at_most_one(m, role),
        holds(m, a, role),
    ensures
        paint(m, a, role) == m,
        paint_updates(m, a, role).len() == 0,
{
    lemma_holder_is(m, role, a);
    assert forall|c: Cell| m.dom().contains(c) implies #[trigger] paint(m, a, role)[c] == m[c] by {
        if c != a && holds(m, c, role) {
            assert(holds(m, a, role));
        }
    }
    assert(paint(m, a, role) =~= m);
}

/// While no tool is selected, the pointer entering a cell gives rise to no
/// signal: the board stays as it is, no cell is redrawn, and still no tool is
/// selected.
pub proof fn lemma_hover_needs_tool(m: Board, cell: Cell)
    ensures
        signal_of(None, PointerEvent::Over(cell)) is None,
        react(m, None, PointerEvent::Over(cell)) == m,
        react_updates(m, None, PointerEvent::Over(cell)).len() == 0,
        pending_after(None, PointerEvent::Over(cell)) is None,
{
}

/// On a board that keeps its singleton roles single, the cells that a
/// signal's redraws name are exactly the cells whose role or hover flag the
/// signal changes, and each redraw carries the colour that its cell shows
/// afterwards.
pub proof fn lemma_updates_are_the_changes(m: Board, signal: Signal)
    requires
        singletons_hold(m),
    ensures
        forall|c: Cell|
            m.dom().contains(c) ==> (#[trigger] step(m, signal)[c] != m[c] <==> exists|i: int|
                0 <= i < step_updates(m, signal).len() && (#[trigger] step_updates(
                    m,
                    signal,
                )[i]).cell == c),
        forall|i: int|
            0 <= i < step_updates(m, signal).len() ==> (#[trigger] step_updates(m, signal)[i]).color
                == color_at(step(m, signal), step_updates(m, signal)[i].cell),
        forall|i: int|
            0 <= i < step_updates(m, signal).len() ==> m.dom().contains(
                (#[trigger] step_updates(m, signal)[i]).cell,
            ),
{
    let after = step(m, signal);
    let ups = step_updates(m, signal);
    match signal {
        Signal::Hover(h) => {
            assert forall|c: Cell| m.dom().contains(c) implies (#[trigger] after[c] != m[c]
                <==> exists|i: int| 0 <= i < ups.len() && (#[trigger] ups[i]).cell == c) by {
                if after[c] != m[c] {
                    assert(ups[0].cell == c);
                }
            }
        },
        Signal::Edit(e) => {
            let target = e.cell;
            let role = e.new_state;
            if m.dom().contains(target) {
                lemma_holder_sound(m, role);
                let demo = demotion_updates(m, target, role);
                let own = target_updates(m, target, role);
                assert(ups == demo + own);
                if holds(m, target, role) && role.is_singleton() {
                    lemma_holder_is(m, role, target);
                }
                assert forall|c: Cell| m.dom().contains(c) implies (#[trigger] after[c] != m[c]
                    <==> exists|i: int| 0 <= i < ups.len() && (#[trigger] ups[i]).cell == c) by {
                    if after[c] != m[c] {
                        if c == target {
                            assert(ups[ups.len() - 1].cell == c);
                        } else {
                            assert(role.is_singleton() && holds(m, c, role));
                            lemma_holder_is(m, role, c);
                            assert(ups[0].cell == c);
                        }
                    }
                }
            }
        },
    }
}

/// Drawing two lists of redraws one after the other is drawing the two
/// joined.
pub proof fn lemma_draw_joined(screen: Screen, first: Seq<ColorUpdate>, second: Seq<ColorUpdate>)
    ensures
        draw(screen, first + second) == draw(draw(screen, first), second),
    decreases second.len(),
{
    if second.len() == 0 {
        assert(first + second =~= first);
    } else {
        lemma_draw_joined(screen, first, second.drop_last());
        assert((first + second).drop_last() =~= first + second.drop_last());
        assert((first + second).last() == second.last());
    }
}

/// A display that shows the board as it is before a signal shows the board as
/// it is after the signal, once the signal's redraws have been drawn: the
/// redraws are all that has to be drawn.
pub proof fn lemma_redraws_keep_screen_in_sync(screen: Screen, m: Board, signal: Signal)
    requires
        singletons_hold(m),
        in_sync(screen, m),
    ensures
        in_sync(draw(screen, step_updates(m, signal)), step(m, signal)),
{
    let after = step(m, signal);
    let ups = step_updates(m, signal);
    lemma_step_keeps_singletons(m, signal);
    lemma_updates_are_the_changes(m, signal);
    lemma_draw_covers(screen, ups);
    assert forall|c: Cell| #[trigger] after.dom().contains(c) implies draw(screen, ups).dom().contains(
        c,
    ) && draw(screen, ups)[c] == color_at(after, c) by {
        assert(m.dom().contains(c));
        if after[c] != m[c] {
            let i = choose|i: int| 0 <= i < ups.len() && (#[trigger] ups[i]).cell == c;
            lemma_distinct_redraws(m, signal);
            lemma_draw_shows(screen, ups, i);
        } else {
            lemma_draw_leaves(screen, ups, c);
        }
    }
}

/// A display that shows the board as it is before a cycle shows the board as
/// it is after the cycle, once the cycle's redraws have been drawn in order.
pub proof fn lemma_cycle_redraws_keep_screen_in_sync(
    screen: Screen,
    m: Board,
    pending: Option<CellState>,
    events: Seq<PointerEvent>,
)
    requires
        singletons_hold(m),
        in_sync(screen, m),
    ensures
        in_sync(draw(screen, cycle_updates(m, pending, events)), cycle_board(m, pending, events)),
    decreases events.len(),
{
    if events.len() > 0 {
        let head = events.drop_last();
        lemma_cycle_redraws_keep_screen_in_sync(screen, m, pending, head);
        lemma_cycle_keeps_singletons(m, pending, head);
        let earlier = cycle_board(m, pending, head);
        let drawn = draw(screen, cycle_updates(m, pending, head));
        let more = react_updates(earlier, cycle_pending(pending, head), events.last());
        lemma_draw_joined(screen, cycle_updates(m, pending, head), more);
        match signal_of(cycle_pending(pending, head), events.last()) {
            Some(signal) => {
                lemma_redraws_keep_screen_in_sync(drawn, earlier, signal);
            },
            None => {},
        }
    }
}

/// The redraws of one signal name no cell twice.
proof fn lemma_distinct_redraws(m: Board, signal: Signal)
    requires
        singletons_hold(m),
    ensures
        forall|i: int, j: int|
            0 <= i < j < step_updates(m, signal).len() ==> (#[trigger] step_updates(
                m,
                signal,
            )[i]).cell != (#[trigger] step_updates(m, signal)[j]).cell,
{
    match signal {
        Signal::Hover(h) => {},
        Signal::Edit(e) => {
            if m.dom().contains(e.cell) {
                let demo = demotion_updates(m, e.cell, e.new_state);
                let own = target_updates(m, e.cell, e.new_state);
                assert(step_updates(m, signal) == demo + own);
            }
        },
    }
}

/// Drawing keeps every cell that the display had.
proof fn lemma_draw_covers(screen: Screen, updates: Seq<ColorUpdate>)
    ensures
        forall|c: Cell| screen.dom().contains(c) ==> #[trigger] draw(screen, updates).dom().contains(c),
    decreases updates.len(),
{
    if updates.len() > 0 {
        let head = updates.drop_last();
        lemma_draw_covers(screen, head);
        assert forall|c: Cell| screen.dom().contains(c) implies #[trigger] draw(
            screen,
            updates,
        ).dom().contains(c) by {
            assert(draw(screen, head).dom().contains(c));
        }
    }
}

/// A cell that no redraw names keeps its colour.
proof fn lemma_draw_leaves(screen: Screen, updates: Seq<ColorUpdate>, c: Cell)
    requires
        forall|i: int| 0 <= i < updates.len() ==> (#[trigger] updates[i]).cell != c,
    ensures
        draw(screen, updates)[c] == screen[c],
    decreases updates.len(),
{
    if updates.len() > 0 {
        let head = updates.drop_last();
        assert forall|i: int| 0 <= i < head.len() implies (#[trigger] head[i]).cell != c by {
            assert(head[i] == updates[i]);
        }
        lemma_draw_leaves(screen, head, c);
        assert(updates.last() == updates[updates.len() - 1]);
    }
}

/// A cell that exactly one redraw names shows that redraw's colour.
proof fn lemma_draw_shows(screen: Screen, updates: Seq<ColorUpdate>, i: int)
    requires
        0 <= i < updates.len(),
        forall|j: int, k: int|
            0 <= j < k < updates.len() ==> (#[trigger] updates[j]).cell != (#[trigger] updates[k]).cell,
    ensures
        draw(screen, updates).dom().contains(updates[i].cell),
        draw(screen, updates)[updates[i].cell] == updates[i].color,
    decreases updates.len(),
{
    let head = updates.drop_last();
    if i == updates.len() - 1 {
    } else {
        assert forall|j: int, k: int| 0 <= j < k < head.len() implies (#[trigger] head[j]).cell != (
        #[trigger] head[k]).cell by {
            assert(head[j] == updates[j] && head[k] == updates[k]);
        }
        assert(head[i] == updates[i]);
        lemma_draw_shows(screen, head, i);
        assert(updates[i].cell != updates[updates.len() - 1].cell);
    }
}

} // verus!
