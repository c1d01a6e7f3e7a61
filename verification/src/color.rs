//! Colours as three integer channels, and the colour that a cell shows.

use crate::cell::CellState;
use vstd::prelude::*;

verus! {

/// The value of a channel at full intensity. A channel counts thousandths.
pub const FULL: u16 = 1000;

/// A colour: red, green and blue, each in thousandths of full intensity.
#[derive(Clone, Copy, Debug, PartialEq, Eq, Structural)]
pub struct Color {
    pub red: u16,
    pub green: u16,
    pub blue: u16,
}

/// The midpoint of two channel values, rounded down.
pub open spec fn half_way(a: u16, b: u16) -> u16 {
    ((a + b) / 2) as u16
}

impl Color {
    /// No channel exceeds full intensity.
    pub open spec fn in_gamut(self) -> bool {
        self.red <= FULL && self.green <= FULL && self.blue <= FULL
    }

    pub open spec fn black() -> Color {
        Color { red: 0, green: 0, blue: 0 }
    }

    /// The even blend of two colours, channel by channel.
    pub open spec fn spec_mix_half(self, other: Color) -> Color {
        Color {
            red: half_way(self.red, other.red),
            green: half_way(self.green, other.green),
            blue: half_way(self.blue, other.blue),
        }
    }

    /// Blends two colours with equal weight: each channel is the midpoint of
    /// the two, rounded down.
    pub fn mix_half(&self, other: &Color) -> (c: Color)
        ensures
            c == self.spec_mix_half(*other),
            self.in_gamut() && other.in_gamut() ==> c.in_gamut(),
    {
        Color {
            red: mid(self.red, other.red),
            green: mid(self.green, other.green),
            blue: mid(self.blue, other.blue),
        }
    }
}

fn mid(a: u16, b: u16) -> (m: u16)
    ensures
        m == half_way(a, b),
{
    let sum: u32 = a as u32 + b as u32;
    (sum / 2) as u16
}

/// The colour of a role when the pointer is elsewhere: white for an empty
/// cell, mid-grey for a wall, green for the start, red for the end.
pub open spec fn base_color(state: CellState) -> Color {
    match state {
        CellState::Empty => Color { red: 1000, green: 1000, blue: 1000 },
        CellState::Wall => Color { red: 500, green: 500, blue: 500 },
        CellState::Start => Color { red: 0, green: 1000, blue: 0 },
        CellState::End => Color { red: 1000, green: 0, blue: 0 },
    }
}

/// The colour that a cell shows: its role's colour, blended evenly with black
/// while the pointer rests on it.
pub open spec fn shown_color(state: CellState, hovered: bool) -> Color {
    if hovered {
        base_color(state).spec_mix_half(Color::black())
    } else {
        base_color(state)
    }
}

impl CellState {
    /// The role's colour.
    pub fn to_color(&self) -> (c: Color)
        ensures
            c == base_color(*self),
            c.in_gamut(),
    {
        match self {
            CellState::Empty => Color { red: 1000, green: 1000, blue: 1000 },
            CellState::Wall => Color { red: 500, green: 500, blue: 500 },
            CellState::Start => Color { red: 0, green: 1000, blue: 0 },
            CellState::End => Color { red: 1000, green: 0, blue: 0 },
        }
    }
}

/// The colour to draw a cell in. It depends on the role and the hover flag
/// alone, so equal arguments always give equal colours.
pub fn displayed_color(state: CellState, hovered: bool) -> (c: Color)
    ensures
        c == shown_color(state, hovered),
        c.in_gamut(),
{
    let base = state.to_color();
    if hovered {
        let black = Color { red: 0, green: 0, blue: 0 };
        base.mix_half(&black)
    } else {
        base
    }
}

} // verus!
