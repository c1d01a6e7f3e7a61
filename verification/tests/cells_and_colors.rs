use grid_editor::color::Color;
use grid_editor::{displayed_color, Cell, CellEditMode, CellHovered, CellState};

const ROLES: [CellState; 4] = [CellState::Empty, CellState::Wall, CellState::Start, CellState::End];

fn rgb(red: u16, green: u16, blue: u16) -> Color {
    Color { red, green, blue }
}

#[test]
fn base_colors_are_white_grey_green_red() {
    assert_eq!(CellState::Empty.to_color(), rgb(1000, 1000, 1000));
    assert_eq!(CellState::Wall.to_color(), rgb(500, 500, 500));
    assert_eq!(CellState::Start.to_color(), rgb(0, 1000, 0));
    assert_eq!(CellState::End.to_color(), rgb(1000, 0, 0));
}

#[test]
fn unhovered_cells_show_their_base_color() {
    for role in ROLES {
        assert_eq!(displayed_color(role, false), role.to_color());
    }
}

#[test]
fn hovered_cells_are_halfway_to_black() {
    assert_eq!(displayed_color(CellState::Empty, true), rgb(500, 500, 500));
    assert_eq!(displayed_color(CellState::Wall, true), rgb(250, 250, 250));
    assert_eq!(displayed_color(CellState::Start, true), rgb(0, 500, 0));
    assert_eq!(displayed_color(CellState::End, true), rgb(500, 0, 0));
}

#[test]
fn displayed_color_does_not_depend_on_call_order() {
    let mut forward = Vec::new();
    for role in ROLES {
        for hovered in [false, true] {
            forward.push((role, hovered, displayed_color(role, hovered)));
        }
    }
    for (role, hovered, color) in forward.iter().rev() {
        assert_eq!(displayed_color(*role, *hovered), *color);
        assert_eq!(displayed_color(*role, *hovered), *color);
    }
}

#[test]
fn mix_half_takes_the_midpoint_of_each_channel() {
    let a = rgb(1000, 0, 301);
    let b = rgb(0, 0, 100);
    assert_eq!(a.mix_half(&b), rgb(500, 0, 200));
    assert_eq!(b.mix_half(&a), rgb(500, 0, 200));
    assert_eq!(a.mix_half(&a), a);
}

#[test]
fn mix_half_does_not_overflow_at_the_channel_limit() {
    let top = rgb(u16::MAX, u16::MAX, u16::MAX);
    assert_eq!(top.mix_half(&top), top);
    assert_eq!(top.mix_half(&rgb(0, 0, 0)), rgb(32767, 32767, 32767));
}

#[test]
fn labels_name_the_roles() {
    assert_eq!(CellState::Empty.label(), "Empty");
    assert_eq!(CellState::Wall.label(), "Wall");
    assert_eq!(CellState::Start.label(), "Start");
    assert_eq!(CellState::End.label(), "End");
}

#[test]
fn from_components_prefers_start_then_end_then_wall() {
    assert_eq!(CellState::from_components(false, false, false), CellState::Empty);
    assert_eq!(CellState::from_components(true, false, false), CellState::Wall);
    assert_eq!(CellState::from_components(false, true, false), CellState::Start);
    assert_eq!(CellState::from_components(true, true, false), CellState::Start);
    assert_eq!(CellState::from_components(false, false, true), CellState::End);
    assert_eq!(CellState::from_components(true, false, true), CellState::End);
    assert_eq!(CellState::from_components(false, true, true), CellState::Start);
    assert_eq!(CellState::from_components(true, true, true), CellState::Start);
}

#[test]
fn hover_flag_defaults_to_false() {
    assert_eq!(CellHovered::default(), CellHovered(false));
}

#[test]
fn cells_compare_by_coordinates() {
    assert_eq!(Cell { x: 1, y: 2 }, Cell { x: 1, y: 2 });
    assert_ne!(Cell { x: 1, y: 2 }, Cell { x: 2, y: 1 });
}

#[test]
fn session_starts_without_a_tool() {
    let session = CellEditMode::default();
    assert_eq!(session.mode, None);
    assert_eq!(session.current_pending_role(), None);
}

#[test]
fn set_pending_role_replaces_the_selection() {
    let mut session = CellEditMode::default();
    session.set_pending_role(CellState::Start);
    assert_eq!(session.current_pending_role(), Some(CellState::Start));
    session.set_pending_role(CellState::Wall);
    assert_eq!(session.current_pending_role(), Some(CellState::Wall));
}

#[test]
fn cancel_drops_the_selection() {
    let mut session = CellEditMode::default();
    session.set_pending_role(CellState::End);
    session.cancel();
    assert_eq!(session.current_pending_role(), None);
    session.cancel();
    assert_eq!(session.current_pending_role(), None);
}
