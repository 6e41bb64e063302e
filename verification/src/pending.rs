//! The single-slot, take-once mailbox for a file path handed to the
//! process before the UI listens.  The slot itself is verified; the
//! surrounding process wraps it in a mutual-exclusion lock.

use vstd::prelude::*;

verus! {

/// A single-slot mailbox holding at most one pending path.
pub struct PendingOpenPath {
    pub slot: Option<String>,
}

impl PendingOpenPath {
    /// An empty mailbox.
    pub fn new() -> (r: Self)
        ensures
            r.slot is None,
    {
        PendingOpenPath { slot: None }
    }

    /// Stores a path, replacing whatever was pending.
    pub fn set(&mut self, value: String)
        ensures
            final(self).slot == Some(value),
    {
        self.slot = Some(value);
    }

    /// Hands out the pending path, if any, and empties the slot: a
    /// second take returns nothing.
    pub fn take(&mut self) -> (r: Option<String>)
        ensures
            r == old(self).slot,
            final(self).slot is None,
    {
        self.slot.take()
    }
}

} // verus!
