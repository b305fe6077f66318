//! The tri-state lifecycle of the request handler.

use vstd::prelude::*;

verus! {

/// Whether a worker is active.
#[derive(Clone, Copy, Debug, PartialEq, Eq, Structural)]
pub enum HandlerState {
    /// No worker is active; the next admitted request starts one.
    Idle,
    /// One worker owns a queue and is draining it.
    Busy,
    /// The most recent worker ended abnormally; admission is suspended.
    Failed,
}

/// The cell that holds the handler state. Every transition goes through
/// [`StateCell::compare_and_set`], so a transition is decided on the value
/// that is replaced and on nothing read earlier.
pub struct StateCell {
    value: HandlerState,
}

impl View for StateCell {
    type V = HandlerState;

    closed spec fn view(&self) -> HandlerState {
        self.value
    }
}

impl StateCell {
    /// A cell holding `Idle`.
    pub fn new() -> (cell: StateCell)
        ensures
            cell@ == HandlerState::Idle,
    {
        StateCell { value: HandlerState::Idle }
    }

    /// The value held now.
    pub fn load(&self) -> (value: HandlerState)
        ensures
            value == self@,
    {
        self.value
    }

    /// Replaces `expected` by `new`. Returns whether the cell held `expected`;
    /// if it did not, the cell is left as it was.
    pub fn compare_and_set(&mut self, expected: HandlerState, new: HandlerState) -> (swapped: bool)
        ensures
            swapped == (old(self)@ == expected),
            final(self)@ == if swapped { new } else { old(self)@ },
    {
        if self.value == expected {
            self.value = new;
            true
        } else {
            false
        }
    }
}

} // verus!
