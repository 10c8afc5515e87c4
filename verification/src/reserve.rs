//! Reservation batching: the reserve counter and the per-type reserved areas.

use vstd::prelude::*;

verus! {

/// A secondary counter used only while a reservation batch is being built.
///
/// It is incremented once per `reserve` call and reset to zero when the
/// batch is committed, so the values it hands out number the members of the
/// current batch `1, 2, 3, ...` across all payload types.
#[derive(Debug, Clone, Copy, PartialEq, Eq, Structural)]
pub struct ReserveCounter {
    count: usize,
}

impl View for ReserveCounter {
    type V = nat;

    closed spec fn view(&self) -> nat {
        self.count as nat
    }
}

impl ReserveCounter {
    /// A fresh reserve counter, starting at zero.
    pub fn new() -> (c: Self)
        ensures
            c@ == 0,
    {
        ReserveCounter { count: 0 }
    }

    /// The current value.
    pub fn value(&self) -> (n: usize)
        ensures
            n == self@,
    {
        self.count
    }

    /// Steps the counter up by one; called once per `reserve` call.
    pub fn increment(&mut self)
        requires
            old(self)@ < usize::MAX,
        ensures
            final(self)@ == old(self)@ + 1,
    {
        self.count = self.count + 1;
    }

    /// Resets the counter to zero; called once per commit, after the batch
    /// has been folded into the undo counter.
    pub fn reset(&mut self)
        ensures
            final(self)@ == 0,
    {
        self.count = 0;
    }
}

impl Default for ReserveCounter {
    /// The default reserve counter starts at zero, like [`ReserveCounter::new`].
    fn default() -> (c: Self)
        ensures
            c@ == 0,
    {
        ReserveCounter::new()
    }
}

/// One batch-pending payload, tagged with its local reservation number.
pub struct UndoReserveEvent<E> {
    /// The opaque undo payload.
    pub inner: E,
    /// The local reservation number drawn from [`ReserveCounter`].
    pub reserve_no: usize,
}

/// The reserved area of one payload type: the batch-pending entries, in
/// first-in-first-out order, awaiting promotion into the registry.
pub struct UndoReserve<E> {
    events: Vec<UndoReserveEvent<E>>,
}

impl<E> View for UndoReserve<E> {
    type V = Seq<UndoReserveEvent<E>>;

    closed spec fn view(&self) -> Seq<UndoReserveEvent<E>> {
        self.events@
    }
}

impl<E> UndoReserve<E> {
    /// A fresh, empty reserved area.
    pub fn new() -> (r: Self)
        ensures
            r@ == Seq::<UndoReserveEvent<E>>::empty(),
    {
        UndoReserve { events: Vec::new() }
    }

    /// The number of batch-pending entries.
    pub fn len(&self) -> (n: usize)
        ensures
            n == self@.len(),
    {
        self.events.len()
    }

    /// Appends an entry at the back of the reserved area.
    pub fn push(&mut self, event: UndoReserveEvent<E>)
        ensures
            final(self)@ == old(self)@.push(event),
    {
        self.events.push(event);
    }

    /// Removes and returns the oldest entry, or `None` if the area is empty.
    pub fn pop(&mut self) -> (r: Option<UndoReserveEvent<E>>)
        ensures
            old(self)@.len() == 0 ==> r is None && final(self)@ == old(self)@,
            old(self)@.len() > 0 ==> r == Some(old(self)@[0]) && final(self)@ == old(self)@.drop_first(),
    {
        if self.events.len() == 0 {
            None
        } else {
            let e = self.events.remove(0);
            assert(self.events@ =~= old(self)@.drop_first());
            Some(e)
        }
    }
}

impl<E> Default for UndoReserve<E> {
    /// The default reserved area is empty, like [`UndoReserve::new`].
    fn default() -> (r: Self)
        ensures
            r@ == Seq::<UndoReserveEvent<E>>::empty(),
    {
        UndoReserve::new()
    }
}

} // verus!
