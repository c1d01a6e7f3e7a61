use grid_editor::color::Color;
use grid_editor::cycle::{batch_on_board, cell_of};
use grid_editor::{
    displayed_color, run_cycle, setup, Cell, CellEditMode, CellState, ColorUpdate, Grid,
    GridError, PointerEvent,
};
use std::collections::HashMap;

fn at(x: usize, y: usize) -> Cell {
    Cell { x, y }
}

fn redraw(cell: Cell, role: CellState, hovered: bool) -> ColorUpdate {
    ColorUpdate { cell, color: displayed_color(role, hovered) }
}

#[test]
fn hover_without_tool_changes_no_color() {
    let mut grid = setup(3);
    let mut session = CellEditMode::default();
    let before = grid.snapshot();
    let redraws = run_cycle(&mut grid, &mut session, &vec![PointerEvent::Over(at(1, 1))]);
    assert_eq!(redraws, Ok(Vec::new()));
    assert_eq!(grid.snapshot(), before);
    assert!(!grid.is_hovered(at(1, 1)));
    assert_eq!(grid.displayed_color(at(1, 1)), displayed_color(CellState::Empty, false));
}

#[test]
fn cycle_applies_events_in_arrival_order() {
    let mut grid = setup(3);
    let mut session = CellEditMode::default();
    session.set_pending_role(CellState::Start);
    let events = vec![
        PointerEvent::Over(at(0, 0)),
        PointerEvent::Click(at(0, 0)),
        PointerEvent::Click(at(1, 1)),
        PointerEvent::Out(at(0, 0)),
        PointerEvent::Over(at(1, 1)),
    ];
    let redraws = run_cycle(&mut grid, &mut session, &events);
    assert_eq!(
        redraws,
        Ok(vec![
            redraw(at(0, 0), CellState::Empty, true),
            redraw(at(0, 0), CellState::Start, true),
            redraw(at(0, 0), CellState::Start, false),
        ])
    );
    assert_eq!(grid.get(0, 0), CellState::Start);
    assert_eq!(grid.get(1, 1), CellState::Empty);
    assert!(!grid.is_hovered(at(0, 0)));
    assert!(!grid.is_hovered(at(1, 1)));
    assert_eq!(session.current_pending_role(), None);
}

#[test]
fn cycles_carry_the_board_from_one_to_the_next() {
    let mut grid = setup(3);
    let mut session = CellEditMode::default();
    session.set_pending_role(CellState::End);
    assert_eq!(
        run_cycle(&mut grid, &mut session, &vec![PointerEvent::Click(at(2, 0))]),
        Ok(vec![redraw(at(2, 0), CellState::End, false)])
    );
    session.set_pending_role(CellState::End);
    assert_eq!(
        run_cycle(&mut grid, &mut session, &vec![PointerEvent::Click(at(0, 2))]),
        Ok(vec![redraw(at(2, 0), CellState::Empty, false), redraw(at(0, 2), CellState::End, false)])
    );
    assert_eq!(grid.end_cell(), Some(at(0, 2)));
}

#[test]
fn empty_cycle_changes_nothing() {
    let mut grid = setup(2);
    let mut session = CellEditMode::default();
    session.set_pending_role(CellState::Wall);
    assert_eq!(run_cycle(&mut grid, &mut session, &Vec::new()), Ok(Vec::new()));
    assert_eq!(session.current_pending_role(), Some(CellState::Wall));
}

#[test]
fn cycle_with_a_cell_off_the_board_is_turned_down_whole() {
    let mut grid = setup(3);
    let mut session = CellEditMode::default();
    session.set_pending_role(CellState::Wall);
    let events = vec![PointerEvent::Click(at(0, 0)), PointerEvent::Out(at(3, 3))];
    assert!(!batch_on_board(&grid, &events));
    assert_eq!(run_cycle(&mut grid, &mut session, &events), Err(GridError::OutOfBounds));
    assert_eq!(grid.get(0, 0), CellState::Empty);
    assert_eq!(session.current_pending_role(), Some(CellState::Wall));
}

#[test]
fn batch_on_board_accepts_cells_of_the_board() {
    let grid = setup(3);
    assert!(batch_on_board(&grid, &Vec::new()));
    assert!(batch_on_board(&grid, &vec![PointerEvent::Over(at(2, 2)), PointerEvent::Click(at(0, 0))]));
    assert!(!batch_on_board(&grid, &vec![PointerEvent::Over(at(2, 3))]));
}

#[test]
fn cell_of_reads_the_addressed_cell() {
    assert_eq!(cell_of(PointerEvent::Over(at(1, 2))), at(1, 2));
    assert_eq!(cell_of(PointerEvent::Out(at(3, 4))), at(3, 4));
    assert_eq!(cell_of(PointerEvent::Click(at(5, 6))), at(5, 6));
}

fn assert_in_sync(screen: &HashMap<Cell, Color>, grid: &Grid) {
    for (x, y, role, hovered) in grid.snapshot() {
        assert_eq!(screen.get(&at(x, y)), Some(&displayed_color(role, hovered)));
        assert_eq!(grid.displayed_color(at(x, y)), displayed_color(role, hovered));
    }
}

#[test]
fn drawing_the_redraws_keeps_a_screen_in_sync() {
    let mut grid = setup(3);
    let mut session = CellEditMode::default();
    let mut screen: HashMap<Cell, Color> = HashMap::new();
    for (x, y, role, hovered) in grid.snapshot() {
        screen.insert(at(x, y), displayed_color(role, hovered));
    }
    let cycles = vec![
        (Some(CellState::Start), vec![PointerEvent::Over(at(0, 0)), PointerEvent::Click(at(0, 0))]),
        (None, vec![PointerEvent::Out(at(0, 0)), PointerEvent::Over(at(1, 1))]),
        (Some(CellState::End), vec![PointerEvent::Over(at(1, 1)), PointerEvent::Click(at(1, 1))]),
        (
            Some(CellState::Start),
            vec![
                PointerEvent::Out(at(1, 1)),
                PointerEvent::Over(at(1, 1)),
                PointerEvent::Click(at(1, 1)),
                PointerEvent::Click(at(2, 2)),
            ],
        ),
        (Some(CellState::Wall), vec![PointerEvent::Click(at(1, 1)), PointerEvent::Out(at(1, 1))]),
        (Some(CellState::Empty), vec![PointerEvent::Over(at(2, 0)), PointerEvent::Click(at(1, 1))]),
    ];
    for (tool, events) in cycles {
        if let Some(role) = tool {
            session.set_pending_role(role);
        }
        let redraws = run_cycle(&mut grid, &mut session, &events).unwrap();
        for redraw in redraws {
            screen.insert(redraw.cell, redraw.color);
        }
        assert_in_sync(&screen, &grid);
    }
    assert_eq!(grid.start_cell(), None);
    assert_eq!(grid.end_cell(), None);
    assert_eq!(grid.get(1, 1), CellState::Empty);
    assert!(grid.is_hovered(at(2, 0)));
}
