//! The global undo counter: how many undoable actions are currently live.

use vstd::prelude::*;
use crate::reserve::ReserveCounter;

verus! {

/// A monotonically adjusted, non-negative counter.
///
/// At rest it equals the number of registered-but-not-yet-undone entries
/// across all registries, and the next registration receives the value
/// `self@ + 1` as its sequence number.
#[derive(Debug, Clone, Copy, PartialEq, Eq, Structural)]
pub struct UndoCounter {
    count: usize,
}

impl View for UndoCounter {
    type V = nat;

    closed spec fn view(&self) -> nat {
        self.count as nat
    }
}

impl UndoCounter {
    /// A fresh counter, starting at zero.
    pub fn new() -> (c: Self)
        ensures
            c@ == 0,
    {
        UndoCounter { count: 0 }
    }

    /// The current value.
    pub fn value(&self) -> (n: usize)
        ensures
            n == self@,
    {
        self.count
    }

    /// Steps the counter up by one; called once per successful registration.
    pub fn increment(&mut self)
        requires
            old(self)@ < usize::MAX,
        ensures
            final(self)@ == old(self)@ + 1,
    {
        self.count = self.count + 1;
    }

    /// Steps the counter down by one, saturating at zero; called once per
    /// successful delivery.
    pub fn decrement(&mut self)
        ensures
            final(self)@ == if old(self)@ == 0 { 0nat } else { (old(self)@ - 1) as nat },
    {
        self.count = if self.count == 0 { 0 } else { self.count - 1 };
    }

    /// Folds a whole reservation batch into the counter at commit time.
    pub fn add_reserved(&mut self, rhs: &ReserveCounter)
        requires
            old(self)@ + rhs@ <= usize::MAX,
        ensures
            final(self)@ == old(self)@ + rhs@,
    {
        self.count = self.count + rhs.value();
    }
}

impl Default for UndoCounter {
    /// The default counter starts at zero, like [`UndoCounter::new`].
    fn default() -> (c: Self)
        ensures
            c@ == 0,
    {
        UndoCounter::new()
    }
}

} // verus!
