//! Sequenced entries, the scheduler façade, and the commit requester.

use vstd::prelude::*;
use crate::counter::UndoCounter;
use crate::reserve::{ReserveCounter, UndoReserve, UndoReserveEvent};
use crate::UndoRegisteredArea;

verus! {

/// An immutable record pairing an undo payload with the global sequence
/// number it was assigned at registration.
pub struct UndoEvent<E> {
    /// The opaque undo payload.
    pub inner: E,
    /// The sequence number drawn from [`UndoCounter`] at registration.
    pub no: usize,
}

/// The handle producers use to request that all reserved entries be
/// promoted into their registries.
///
/// `commit` only raises a signal; the promotion itself runs in the commit
/// phase of the following tick, so that it always completes before the
/// first undo of the batch is attempted.
pub struct UndoReserveCommitter {
    requested: bool,
}

impl UndoReserveCommitter {
    /// Whether a commit request is pending.
    pub closed spec fn requested(&self) -> bool {
        self.requested
    }

    /// A fresh committer with no pending request.
    pub fn new() -> (c: Self)
        ensures
            !c.requested(),
    {
        UndoReserveCommitter { requested: false }
    }

    /// Raises the commit-request signal.
    pub fn commit(&mut self)
        ensures
            final(self).requested(),
    {
        self.requested = true;
    }

    /// Consumes the pending signal, if any; the host calls this once per
    /// tick in the detect phase.
    pub fn take_request(&mut self) -> (b: bool)
        ensures
            b == old(self).requested(),
            !final(self).requested(),
    {
        let b = self.requested;
        self.requested = false;
        b
    }
}

/// The per-payload-type scheduler façade: it owns the registries and the
/// reserved area of one payload type `E` and is the API producers use to
/// register and reserve undo payloads.
///
/// The counters are shared by the schedulers of all payload types and are
/// handed in by the host, which keeps one addressable copy of each.
pub struct UndoScheduler<E> {
    /// The registry of plainly registered entries.
    pub registered: UndoRegisteredArea<E>,
    /// The registry of promoted (committed) reservation entries; the
    /// payload keeps its reservation number so a delivery can decide
    /// whether the batch cascade continues.
    pub reserve_registered: UndoRegisteredArea<UndoReserveEvent<E>>,
    /// The reserved area of batch-pending entries.
    pub reserve: UndoReserve<E>,
    /// Whether this scheduler has raised a commit request not yet consumed.
    pub commit_requested: bool,
}

impl<E> UndoScheduler<E> {
    /// A fresh scheduler with empty areas and no pending request.
    pub fn new() -> (s: Self)
        ensures
            s.registered@ == Seq::<UndoEvent<E>>::empty(),
            s.reserve_registered@ == Seq::<UndoEvent<UndoReserveEvent<E>>>::empty(),
            s.reserve@ == Seq::<UndoReserveEvent<E>>::empty(),
            !s.commit_requested,
    {
        UndoScheduler {
            registered: UndoRegisteredArea::new(),
            reserve_registered: UndoRegisteredArea::new(),
            reserve: UndoReserve::new(),
            commit_requested: false,
        }
    }

    /// Registers an undo payload: steps the shared counter up by one and
    /// appends the payload to the registry under the new counter value as
    /// its sequence number.  Always succeeds.
    pub fn register(&mut self, counter: &mut UndoCounter, event: E)
        requires
            old(counter)@ < usize::MAX,
        ensures
            final(counter)@ == old(counter)@ + 1,
            final(self).registered@ == old(self).registered@.push(
                (UndoEvent { inner: event, no: ((old(counter)@ + 1) as usize) }),
            ),
            crate::sequencing::nos(final(self).registered@) == crate::sequencing::nos(
                old(self).registered@,
            ).push((old(counter)@ + 1) as nat),
            final(self).reserve_registered@ == old(self).reserve_registered@,
            final(self).reserve@ == old(self).reserve@,
            final(self).commit_requested == old(self).commit_requested,
    {
        counter.increment();
        let no = counter.value();
        self.registered.push(UndoEvent { inner: event, no });
        proof {
            assert(crate::sequencing::nos(self.registered@) =~= crate::sequencing::nos(
                old(self).registered@,
            ).push((old(counter)@ + 1) as nat));
        }
    }

    /// Reserves an undo payload for the current batch: steps the shared
    /// reserve counter up by one and appends the payload to the reserved
    /// area under the new value as its local reservation number.  The undo
    /// counter is not touched.
    pub fn reserve(&mut self, reserve_counter: &mut ReserveCounter, event: E)
        requires
            old(reserve_counter)@ < usize::MAX,
        ensures
            final(reserve_counter)@ == old(reserve_counter)@ + 1,
            final(self).reserve@ == old(self).reserve@.push(
                (UndoReserveEvent { inner: event, reserve_no: ((old(reserve_counter)@ + 1) as usize) }),
            ),
            crate::sequencing::reserve_nos(final(self).reserve@) == crate::sequencing::reserve_nos(
                old(self).reserve@,
            ).push((old(reserve_counter)@ + 1) as nat),
            final(self).registered@ == old(self).registered@,
            final(self).reserve_registered@ == old(self).reserve_registered@,
            final(self).commit_requested == old(self).commit_requested,
    {
        reserve_counter.increment();
        let reserve_no = reserve_counter.value();
        self.reserve.push(UndoReserveEvent { inner: event, reserve_no });
        proof {
            assert(crate::sequencing::reserve_nos(self.reserve@) =~= crate::sequencing::reserve_nos(
                old(self).reserve@,
            ).push((old(reserve_counter)@ + 1) as nat));
        }
    }

    /// Raises the commit-request signal, like [`UndoReserveCommitter::commit`];
    /// the promotion itself is deferred to the commit phase.
    pub fn register_all_reserved(&mut self)
        ensures
            final(self).commit_requested,
            final(self).registered@ == old(self).registered@,
            final(self).reserve_registered@ == old(self).reserve_registered@,
            final(self).reserve@ == old(self).reserve@,
    {
        self.commit_requested = true;
    }

    /// Consumes the pending commit request, if any; the host calls this
    /// once per tick in the detect phase.
    pub fn take_commit_request(&mut self) -> (b: bool)
        ensures
            b == old(self).commit_requested,
            !final(self).commit_requested,
            final(self).registered@ == old(self).registered@,
            final(self).reserve_registered@ == old(self).reserve_registered@,
            final(self).reserve@ == old(self).reserve@,
    {
        let b = self.commit_requested;
        self.commit_requested = false;
        b
    }
}

impl<E: Default> UndoScheduler<E> {
    /// Registers the payload type's default value, like [`UndoScheduler::register`].
    pub fn register_default(&mut self, counter: &mut UndoCounter)
        requires
            old(counter)@ < usize::MAX,
        ensures
            final(counter)@ == old(counter)@ + 1,
            final(self).registered@.len() == old(self).registered@.len() + 1,
            final(self).registered@ == old(self).registered@.push(final(self).registered@.last()),
            final(self).registered@.last().no == old(counter)@ + 1,
            call_ensures(E::default, (), final(self).registered@.last().inner),
            final(self).reserve_registered@ == old(self).reserve_registered@,
            final(self).reserve@ == old(self).reserve@,
            final(self).commit_requested == old(self).commit_requested,
    {
        self.register(counter, E::default());
    }

    /// Reserves the payload type's default value, like [`UndoScheduler::reserve`].
    pub fn reserve_default(&mut self, reserve_counter: &mut ReserveCounter)
        requires
            old(reserve_counter)@ < usize::MAX,
        ensures
            final(reserve_counter)@ == old(reserve_counter)@ + 1,
            final(self).reserve@.len() == old(self).reserve@.len() + 1,
            final(self).reserve@ == old(self).reserve@.push(final(self).reserve@.last()),
            final(self).reserve@.last().reserve_no == old(reserve_counter)@ + 1,
            call_ensures(E::default, (), final(self).reserve@.last().inner),
            final(self).registered@ == old(self).registered@,
            final(self).reserve_registered@ == old(self).reserve_registered@,
            final(self).commit_requested == old(self).commit_requested,
    {
        self.reserve(reserve_counter, E::default());
    }
}

} // verus!
