//! The editing tool that waits for the next click.

use crate::cell::CellState;
use vstd::prelude::*;

verus! {

/// The role that the next accepted click will paint, if any. A control panel
/// sets it; one click uses it up.
#[derive(Clone, Copy, Debug, PartialEq, Eq, Structural)]
pub struct CellEditMode {
    pub mode: Option<CellState>,
}

impl Default for CellEditMode {
    fn default() -> (session: CellEditMode)
        ensures
            session.mode is None,
    {
        CellEditMode { mode: None }
    }
}

impl CellEditMode {
    /// Selects the role that the next click paints, replacing any earlier
    /// selection.
    pub fn set_pending_role(&mut self, role: CellState)
        ensures
            final(self).mode == Some(role),
    {
        self.mode = Some(role);
    }

    /// The role that the next click will paint.
    pub fn current_pending_role(&self) -> (pending: Option<CellState>)
        ensures
            pending == self.mode,
    {
        self.mode
    }

    /// Drops the selection without painting anything.
    pub fn cancel(&mut self)
        ensures
            final(self).mode is None,
    {
        self.mode = None;
    }
}

} // verus!
