use grid_editor::{
    on_click, on_mouse_out, on_mouse_over, translate, Cell, CellClicked, CellEditMode, CellState,
    HoverChanged, PointerEvent, Signal,
};

fn at(x: usize, y: usize) -> Cell {
    Cell { x, y }
}

fn with_tool(role: CellState) -> CellEditMode {
    let mut session = CellEditMode::default();
    session.set_pending_role(role);
    session
}

#[test]
fn pointer_over_without_tool_gives_no_signal() {
    let session = CellEditMode::default();
    assert_eq!(on_mouse_over(&session, at(2, 3)), None);
}

#[test]
fn pointer_over_with_tool_highlights_the_cell() {
    let session = with_tool(CellState::Wall);
    assert_eq!(
        on_mouse_over(&session, at(2, 3)),
        Some(HoverChanged { cell: at(2, 3), hovered: true })
    );
    assert_eq!(session.current_pending_role(), Some(CellState::Wall));
}

#[test]
fn pointer_out_always_clears_the_highlight() {
    assert_eq!(on_mouse_out(at(4, 0)), HoverChanged { cell: at(4, 0), hovered: false });
}

#[test]
fn click_with_tool_requests_an_edit_and_puts_the_tool_down() {
    let mut session = with_tool(CellState::End);
    let request = on_click(&mut session, at(1, 1));
    assert_eq!(request, Some(CellClicked { cell: at(1, 1), new_state: CellState::End }));
    assert_eq!(session.current_pending_role(), None);
}

#[test]
fn click_without_tool_requests_nothing() {
    let mut session = CellEditMode::default();
    assert_eq!(on_click(&mut session, at(1, 1)), None);
    assert_eq!(session.current_pending_role(), None);
}

#[test]
fn second_click_after_one_selection_requests_nothing() {
    let mut session = with_tool(CellState::Start);
    assert!(on_click(&mut session, at(0, 0)).is_some());
    assert_eq!(on_click(&mut session, at(1, 0)), None);
}

#[test]
fn translate_maps_each_event_kind() {
    let mut session = with_tool(CellState::Wall);
    assert_eq!(
        translate(&mut session, PointerEvent::Over(at(0, 1))),
        Some(Signal::Hover(HoverChanged { cell: at(0, 1), hovered: true }))
    );
    assert_eq!(session.current_pending_role(), Some(CellState::Wall));
    assert_eq!(
        translate(&mut session, PointerEvent::Out(at(0, 1))),
        Some(Signal::Hover(HoverChanged { cell: at(0, 1), hovered: false }))
    );
    assert_eq!(session.current_pending_role(), Some(CellState::Wall));
    assert_eq!(
        translate(&mut session, PointerEvent::Click(at(0, 1))),
        Some(Signal::Edit(CellClicked { cell: at(0, 1), new_state: CellState::Wall }))
    );
    assert_eq!(session.current_pending_role(), None);
}

#[test]
fn translate_without_tool_passes_only_pointer_out() {
    let mut session = CellEditMode::default();
    assert_eq!(translate(&mut session, PointerEvent::Over(at(0, 1))), None);
    assert_eq!(translate(&mut session, PointerEvent::Click(at(0, 1))), None);
    assert_eq!(
        translate(&mut session, PointerEvent::Out(at(0, 1))),
        Some(Signal::Hover(HoverChanged { cell: at(0, 1), hovered: false }))
    );
    assert_eq!(session.current_pending_role(), None);
}
