//! Undo requests and the per-tick request/dispatch state machine.

use vstd::prelude::*;

verus! {

/// The handle consumers use to raise undo requests, and the queue the
/// detect phase consumes them from.  Its view is the number of requests
/// waiting to be serviced.
///
/// A request raised during or after the dispatch phase of a tick is
/// observed no earlier than the detect phase of the following tick; a
/// request deferred by a commit stays queued and is never dropped.
pub struct UndoRequester {
    pending: usize,
}

impl View for UndoRequester {
    type V = nat;

    /// How many undo requests are queued.
    closed spec fn view(&self) -> nat {
        self.pending as nat
    }
}

impl UndoRequester {
    /// A fresh handle with no queued request.
    pub fn new() -> (r: Self)
        ensures
            r@ == 0,
    {
        UndoRequester { pending: 0 }
    }

    /// How many requests are queued.
    pub fn len(&self) -> (n: usize)
        ensures
            n == self@,
    {
        self.pending
    }

    /// Raises an undo request; the dispatch phase of a later tick matches
    /// it against the counter value current at that time.
    pub fn undo(&mut self)
        requires
            old(self)@ < usize::MAX,
        ensures
            final(self)@ == old(self)@ + 1,
    {
        self.pending = self.pending + 1;
    }

    /// Consumes one queued request, if any.
    pub fn take(&mut self) -> (b: bool)
        ensures
            b == (old(self)@ > 0),
            old(self)@ > 0 ==> final(self)@ == old(self)@ - 1,
            old(self)@ == 0 ==> final(self)@ == 0,
    {
        if self.pending > 0 {
            self.pending = self.pending - 1;
            true
        } else {
            false
        }
    }
}

/// What the detect phase decided this tick: the state of the
/// request/dispatch machine for the rest of the tick.
pub enum TickState {
    /// No request arrived: the tick leaves every area and counter alone.
    Idle,
    /// An undo request arrived and no commit request did: the dispatch
    /// phase searches the registries for the entry sequenced at the
    /// counter's current value.
    UndoRequested,
    /// A commit request arrived: the commit phase promotes every reserved
    /// area.  An undo request arriving in the same tick stays queued for
    /// the following tick, so a commit always completes before the first
    /// undo of its batch is attempted.
    CommitRequested,
}

/// The detect phase: turns the signals gathered this tick into the tick's
/// state.  A commit request wins over an undo request; a deferred undo
/// request remains queued.
pub fn detect(requester: &mut UndoRequester, commit_requested: bool) -> (s: TickState)
    ensures
        commit_requested ==> s is CommitRequested && final(requester)@ == old(requester)@,
        !commit_requested && old(requester)@ > 0 ==> s is UndoRequested && final(requester)@ == old(
            requester,
        )@ - 1,
        !commit_requested && old(requester)@ == 0 ==> s is Idle && final(requester)@ == 0,
{
    if commit_requested {
        TickState::CommitRequested
    } else if requester.take() {
        TickState::UndoRequested
    } else {
        TickState::Idle
    }
}

} // verus!
