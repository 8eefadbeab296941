//! The turns in which host functions of compiled guests run.
//!
//! A host function takes the context of its call from the cell of its instance, runs, and leaves the
//! context in the cell again. In between the supervisor may have called the instance in another
//! context.

use crate::state::{cell_may_hold, Reading, StateCell};
use vstd::prelude::*;

verus! {

/// The turn of a host function that runs. It ends by [`Turn::leave`] and gives no other access to
/// the cell.
pub struct Turn<'c> {
    cell: &'c StateCell,
    state: u32,
}

/// What a host function gives when its turn is over, with the state of its cell at that moment.
pub struct Left<'c, T> {
    outcome: T,
    last: Reading<'c>,
}

/// Whether a host function that found the context `found` in its cell may leave `left` there.
pub open spec fn leaves_context(found: u32, left: u32) -> bool {
    left == found
}

impl<'c> Turn<'c> {
    /// The cell that the context was taken from.
    pub closed spec fn cell(self) -> StateCell {
        *self.cell
    }

    /// The context that was found in the cell.
    pub closed spec fn found(self) -> u32 {
        self.state
    }

    /// Begins a turn.
    pub(crate) fn begin(cell: &'c StateCell) -> (r: Turn<'c>)
        ensures
            r.cell() == *cell,
            cell_may_hold(*cell, r.found()),
    {
        Turn { cell, state: cell.current() }
    }

    /// Returns the context that was found in the cell.
    pub(crate) fn state(&self) -> (r: u32)
        ensures
            r == self.found(),
    {
        self.state
    }

    /// Ends a turn that came to `outcome`: puts the context that was found back into the cell.
    pub(crate) fn leave<T>(self, outcome: T) -> (r: Left<'c, T>)
        ensures
            r.outcome() == outcome,
            r.cell() == self.cell(),
            r.left() == self.found(),
    {
        Left { outcome, last: self.cell.put(self.state) }
    }
}

impl<'c, T> Left<'c, T> {
    /// What the host function came to.
    pub closed spec fn outcome(self) -> T {
        self.outcome
    }

    /// The cell that the context was taken from.
    pub closed spec fn cell(self) -> StateCell {
        self.last.cell()
    }

    /// What was put into the cell after the host function had come to its outcome.
    pub closed spec fn left(self) -> u32 {
        self.last.left()
    }

    /// Returns what the host function came to.
    pub(crate) fn into_outcome(self) -> (r: T)
        ensures
            r == self.outcome(),
    {
        self.outcome
    }
}

} // verus!
