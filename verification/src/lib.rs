//! An interactive grid editor's core: a square board of cells that are painted
//! into one of four roles, with at most one start cell and at most one end cell,
//! driven by pointer events and a one-shot editing tool.
//!
//! The board is the single source of truth. Pointer events are turned into
//! signals, signals are applied to the board in arrival order, and every change
//! of a cell's role or hover flag is reported with the colour the cell now shows.

pub mod board;
pub mod cell;
pub mod color;
pub mod cycle;
pub mod grid;
pub mod input;
pub mod laws;
pub mod session;

pub use board::ColorUpdate;
pub use cell::{Cell, CellHovered, CellRecord, CellState};
pub use color::{displayed_color, Color};
pub use cycle::run_cycle;
pub use grid::{
    cell_hovered, process_empty_cell, process_end_cell, process_start_cell, process_wall_cell,
    setup, Grid, GridError,
};
pub use input::{
    on_click, on_mouse_out, on_mouse_over, translate, CellClicked, HoverChanged, PointerEvent,
    Signal,
};
pub use session::CellEditMode;
