//! The per-type phase callbacks: reservation promotion and batch redelivery.

use vstd::prelude::*;
use crate::counter::UndoCounter;
use crate::request::UndoRequester;
use crate::reserve::{UndoReserve, UndoReserveEvent};
use crate::undo_event::UndoEvent;
use crate::UndoRegisteredArea;

verus! {

/// What a commit turns a reserved area into: each batch-pending entry,
/// in reservation order, sequenced under `counter at commit start + its
/// local reservation number`.  The entry keeps its reservation number so
/// a later delivery can decide whether the batch cascade continues.
pub open spec fn promoted<E>(reserved: Seq<UndoReserveEvent<E>>, c: nat) -> Seq<
    UndoEvent<UndoReserveEvent<E>>,
> {
    reserved.map_values(
        |ev: UndoReserveEvent<E>| UndoEvent { inner: ev, no: (c + ev.reserve_no) as usize },
    )
}

/// The commit phase of one payload type: drains its reserved area in
/// increasing local-reservation-number order (the order the entries were
/// reserved in) and appends each to the registry of promoted entries with
/// final sequence number `counter + reservation number`.
///
/// `counter` is the snapshot taken at commit start, before the reserve
/// counter was folded in, so the whole batch's final sequence numbers are
/// a contiguous block directly above the pre-commit counter value.
pub fn register_all_reserved_events<E>(
    reserved: &mut UndoReserve<E>,
    registry: &mut UndoRegisteredArea<UndoReserveEvent<E>>,
    counter: &UndoCounter,
)
    requires
        forall|k: int|
            0 <= k < old(reserved)@.len() ==> counter@ + #[trigger] old(
                reserved,
            )@[k].reserve_no <= usize::MAX,
    ensures
        final(reserved)@ == Seq::<UndoReserveEvent<E>>::empty(),
        final(registry)@ == old(registry)@ + promoted(old(reserved)@, counter@),
{
    let ghost orig = reserved@;
    let ghost orig_reg = registry@;
    let base = counter.value();
    let n = reserved.len();
    let mut i: usize = 0;
    while i < n
        invariant
            n == orig.len(),
            i <= n,
            base == counter@,
            reserved@ == orig.skip(i as int),
            registry@ == orig_reg + promoted(orig, counter@).take(i as int),
            forall|k: int|
                0 <= k < orig.len() ==> counter@ + #[trigger] orig[k].reserve_no <= usize::MAX,
        decreases n - i,
    {
        assert(reserved@[0] == orig[i as int]);
        let ev = reserved.pop().unwrap();
        let no = base + ev.reserve_no;
        registry.push(UndoEvent { inner: ev, no });
        i = i + 1;
        proof {
            assert(reserved@ =~= orig.skip(i as int));
            assert(registry@ =~= orig_reg + promoted(orig, counter@).take(i as int));
        }
    }
    proof {
        assert(reserved@ =~= Seq::<UndoReserveEvent<E>>::empty());
        assert(registry@ =~= orig_reg + promoted(orig, counter@));
    }
}

/// The redelivery step for a dispatched batch entry: hands the payload
/// back out and, when the entry is not the first-reserved member of its
/// batch, re-issues an undo request for the following tick, so that one
/// external request unwinds the whole batch tick by tick.
pub fn redeliver_reserved<E>(event: UndoReserveEvent<E>, requester: &mut UndoRequester) -> (payload:
    E)
    requires
        old(requester)@ < usize::MAX,
    ensures
        payload == event.inner,
        event.reserve_no > 1 ==> final(requester)@ == old(requester)@ + 1,
        event.reserve_no <= 1 ==> final(requester)@ == old(requester)@,
{
    let UndoReserveEvent { inner, reserve_no } = event;
    if reserve_no > 1 {
        requester.undo();
    }
    inner
}

} // verus!
