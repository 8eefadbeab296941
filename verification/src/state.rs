//! The opaque context of the calls that compiled guests make.
//!
//! Host functions of the compiled engines are made once, when a module is instantiated, and serve
//! every later call of that instance. What they have to hand on as the context of a call stands in
//! a cell that they share with the instance. It is put there when a call begins.
//!
//! While a host function runs, the supervisor may call the instance again, in another context. A
//! host function therefore puts the context of its call back when it is done, so that the guest
//! code that goes on finds it there, however the calls in between ended. Instances cannot be shared
//! between threads, so that all calls of one instance are nested in each other or follow each other.

use std::sync::atomic::AtomicU32;
use std::sync::atomic::Ordering;
use std::sync::Arc;
use vstd::prelude::*;

verus! {

/// A cell that an instance shares with its host functions.
///
/// To the contracts two such values are equal if they are the same cell; what the cell holds is not
/// part of the value.
pub struct StateCell {
    pub(crate) cell: Arc<AtomicU32>,
}

/// Whether a cell may hold `state` when it is read.
pub uninterp spec fn cell_may_hold(cell: StateCell, state: u32) -> bool;

/// Calls `Arc::clone`: both references denote the same cell.
#[verifier::external_body]
fn share_cell(cell: &Arc<AtomicU32>) -> (r: Arc<AtomicU32>)
    ensures
        r == *cell,
{
    Arc::clone(cell)
}

/// What was found in a cell and what was left there instead, at one moment.
pub struct Reading<'c> {
    cell: &'c StateCell,
    found: u32,
    left: u32,
}

impl<'c> Reading<'c> {
    /// The cell.
    pub closed spec fn cell(self) -> StateCell {
        *self.cell
    }

    /// What was found there.
    pub closed spec fn found(self) -> u32 {
        self.found
    }

    /// What was left there.
    pub closed spec fn left(self) -> u32 {
        self.left
    }
}

/// Calls `AtomicU32::swap`, which gives what the cell holds at that moment and leaves `left` there.
#[verifier::external_body]
fn read_cell<'c>(cell: &'c StateCell, left: u32) -> (r: Reading<'c>)
    ensures
        r.cell() == *cell,
        cell_may_hold(*cell, r.found()),
        r.left() == left,
{
    Reading { cell, found: cell.cell.swap(left, Ordering::SeqCst), left }
}

impl StateCell {
    /// Creates a cell.
    pub fn new() -> StateCell {
        StateCell { cell: Arc::new(AtomicU32::new(0)) }
    }

    /// Returns another reference to this cell.
    pub fn share(&self) -> (r: StateCell)
        ensures
            r == *self,
    {
        StateCell { cell: share_cell(&self.cell) }
    }

    /// Returns what this cell holds. It is taken out and put back.
    pub fn current(&self) -> (r: u32)
        ensures
            cell_may_hold(*self, r),
    {
        let taken = self.put(0);
        let _back = self.put(taken.found);
        taken.found
    }

    /// Puts `state` into this cell.
    pub(crate) fn put(&self, state: u32) -> (r: Reading<'_>)
        ensures
            r.cell() == *self,
            cell_may_hold(*self, r.found()),
            r.left() == state,
    {
        read_cell(self, state)
    }
}

} // verus!
