//! The engine driven tick by tick, as a host would drive it: detect,
//! commit, dispatch, advance, with two payload types sharing the counters.

use undo_engine::counter::UndoCounter;
use undo_engine::extension::{redeliver_reserved, register_all_reserved_events};
use undo_engine::request::{detect, TickState, UndoRequester};
use undo_engine::reserve::ReserveCounter;
use undo_engine::undo_event::{UndoReserveCommitter, UndoScheduler};
use undo_engine::{commit_counters, decrement_counter};

#[derive(Debug, Clone, PartialEq)]
struct ActionA(i32);

#[derive(Debug, Clone, PartialEq)]
struct ActionB(i32);

impl Default for ActionA {
    fn default() -> Self {
        ActionA(0)
    }
}

struct Host {
    counter: UndoCounter,
    reserve_counter: ReserveCounter,
    requester: UndoRequester,
    committer: UndoReserveCommitter,
    a: UndoScheduler<ActionA>,
    b: UndoScheduler<ActionB>,
}

impl Host {
    fn new() -> Self {
        Host {
            counter: UndoCounter::new(),
            reserve_counter: ReserveCounter::new(),
            requester: UndoRequester::new(),
            committer: UndoReserveCommitter::new(),
            a: UndoScheduler::new(),
            b: UndoScheduler::new(),
        }
    }

    /// One tick of the host loop: the detect, commit, dispatch and advance
    /// phases in their fixed order, over both payload types.  Returns the
    /// tick's delivery, if any.
    fn tick(&mut self) -> (Option<ActionA>, Option<ActionB>) {
        let mut commit = self.committer.take_request();
        commit = self.a.take_commit_request() || commit;
        commit = self.b.take_commit_request() || commit;
        match detect(&mut self.requester, commit) {
            TickState::CommitRequested => {
                let snapshot = commit_counters(&mut self.counter, &mut self.reserve_counter);
                register_all_reserved_events(
                    &mut self.a.reserve,
                    &mut self.a.reserve_registered,
                    &snapshot,
                );
                register_all_reserved_events(
                    &mut self.b.reserve,
                    &mut self.b.reserve_registered,
                    &snapshot,
                );
                (None, None)
            }
            TickState::UndoRequested => {
                let mut ra = self.a.registered.pop_if_has_latest(&self.counter);
                let mut rb = self.b.registered.pop_if_has_latest(&self.counter);
                let rra = self.a.reserve_registered.pop_if_has_latest(&self.counter);
                let rrb = self.b.reserve_registered.pop_if_has_latest(&self.counter);
                let delivered = ra.is_some() || rb.is_some() || rra.is_some() || rrb.is_some();
                decrement_counter(&mut self.counter, if delivered { 1 } else { 0 });
                if let Some(ev) = rra {
                    ra = Some(redeliver_reserved(ev, &mut self.requester));
                }
                if let Some(ev) = rrb {
                    rb = Some(redeliver_reserved(ev, &mut self.requester));
                }
                (ra, rb)
            }
            TickState::Idle => (None, None),
        }
    }

    /// Ticks until a whole cascade has played out, collecting deliveries.
    fn run_until_idle(&mut self) -> (Vec<ActionA>, Vec<ActionB>) {
        let mut out_a = Vec::new();
        let mut out_b = Vec::new();
        loop {
            let pending = self.requester.len() > 0;
            let (ra, rb) = self.tick();
            if let Some(e) = ra {
                out_a.push(e);
            }
            if let Some(e) = rb {
                out_b.push(e);
            }
            if !pending && self.requester.len() == 0 {
                break;
            }
        }
        (out_a, out_b)
    }
}

#[test]
fn once_register() {
    let mut host = Host::new();
    host.a.register_default(&mut host.counter);
    host.requester.undo();
    let (out_a, out_b) = host.run_until_idle();
    assert_eq!(out_a.len(), 1);
    assert_eq!(out_b.len(), 0);
}

#[test]
fn register_2times() {
    let mut host = Host::new();
    host.a.register_default(&mut host.counter);
    host.a.register_default(&mut host.counter);

    host.requester.undo();
    let (out_a, _) = host.run_until_idle();
    assert_eq!(out_a.len(), 1);

    host.requester.undo();
    let (out_a2, _) = host.run_until_idle();
    assert_eq!(out_a2.len(), 1);
}

#[test]
fn reserve_init_3times() {
    let mut host = Host::new();
    host.a.reserve_default(&mut host.reserve_counter);
    host.a.reserve_default(&mut host.reserve_counter);
    host.a.reserve_default(&mut host.reserve_counter);
    host.a.register_all_reserved();

    host.requester.undo();
    host.tick(); // the commit wins the tick; the undo request is deferred
    let (out_a, _) = host.run_until_idle();
    assert_eq!(out_a.len(), 3);
}

#[test]
fn reserve_at_intervals() {
    let mut host = Host::new();

    host.a.reserve(&mut host.reserve_counter, ActionA(1));
    host.tick();
    assert_eq!(host.a.reserve.len(), 1);

    host.a.reserve(&mut host.reserve_counter, ActionA(2));
    host.tick();
    assert_eq!(host.a.reserve.len(), 2);

    host.a.reserve(&mut host.reserve_counter, ActionA(3));
    host.tick();
    assert_eq!(host.a.reserve.len(), 3);

    host.a.register_all_reserved();
    host.tick();
    host.tick();

    assert_eq!(host.a.reserve.len(), 0);
    assert_eq!(host.a.reserve_registered.len(), 3);

    host.requester.undo();
    let (out_a, _) = host.run_until_idle();

    assert_eq!(host.counter.value(), 0);
    assert_eq!(host.reserve_counter.value(), 0);
    assert_eq!(host.a.registered.len(), 0);
    assert_eq!(host.a.reserve.len(), 0);
    assert_eq!(out_a.len(), 3);
}

#[test]
fn lifo_delivery_across_types() {
    let mut host = Host::new();
    host.a.register(&mut host.counter, ActionA(10));
    host.b.register(&mut host.counter, ActionB(20));

    host.requester.undo();
    let (out_a, out_b) = host.run_until_idle();
    assert_eq!(out_a.len(), 0);
    assert_eq!(out_b, vec![ActionB(20)]);

    host.requester.undo();
    let (out_a, out_b) = host.run_until_idle();
    assert_eq!(out_a, vec![ActionA(10)]);
    assert_eq!(out_b.len(), 0);

    host.requester.undo();
    let (out_a, out_b) = host.run_until_idle();
    assert_eq!(out_a.len(), 0);
    assert_eq!(out_b.len(), 0);
    assert_eq!(host.counter.value(), 0);
}

#[test]
fn interleaved_types_follow_counter() {
    let mut host = Host::new();
    host.a.register(&mut host.counter, ActionA(1));
    host.b.register(&mut host.counter, ActionB(2));
    host.a.register(&mut host.counter, ActionA(3));
    assert_eq!(host.counter.value(), 3);
    assert_eq!(host.a.registered.get(0).no, 1);
    assert_eq!(host.b.registered.get(0).no, 2);
    assert_eq!(host.a.registered.get(1).no, 3);

    host.requester.undo();
    let (out_a, out_b) = host.run_until_idle();
    assert_eq!(out_a, vec![ActionA(3)]);
    assert_eq!(out_b.len(), 0);

    host.requester.undo();
    let (out_a, out_b) = host.run_until_idle();
    assert_eq!(out_a.len(), 0);
    assert_eq!(out_b, vec![ActionB(2)]);

    host.requester.undo();
    let (out_a, out_b) = host.run_until_idle();
    assert_eq!(out_a, vec![ActionA(1)]);
    assert_eq!(out_b.len(), 0);
    assert_eq!(host.counter.value(), 0);
}

#[test]
fn reservation_order_preserved() {
    let mut host = Host::new();
    host.a.reserve(&mut host.reserve_counter, ActionA(101)); // X
    host.a.reserve(&mut host.reserve_counter, ActionA(102)); // Y
    host.a.reserve(&mut host.reserve_counter, ActionA(103)); // Z
    host.committer.commit();
    host.tick();

    // Final sequence numbers 1, 2, 3 in reservation order, above counter 0.
    assert_eq!(host.a.reserve_registered.len(), 3);
    assert_eq!(host.a.reserve_registered.get(0).no, 1);
    assert_eq!(host.a.reserve_registered.get(1).no, 2);
    assert_eq!(host.a.reserve_registered.get(2).no, 3);
    assert_eq!(host.a.reserve_registered.get(0).inner.inner, ActionA(101));
    assert_eq!(host.a.reserve_registered.get(0).inner.reserve_no, 1);
    assert_eq!(host.a.reserve_registered.get(2).inner.reserve_no, 3);
    assert_eq!(host.counter.value(), 3);
    assert_eq!(host.reserve_counter.value(), 0);

    // One undo request unwinds the batch in reverse reservation order.
    host.requester.undo();
    let (out_a, _) = host.run_until_idle();
    assert_eq!(out_a, vec![ActionA(103), ActionA(102), ActionA(101)]);
    assert_eq!(host.counter.value(), 0);
}

#[test]
fn batch_atomic_under_one_request() {
    let mut host = Host::new();
    host.a.register(&mut host.counter, ActionA(1));
    host.a.reserve(&mut host.reserve_counter, ActionA(2));
    host.b.reserve(&mut host.reserve_counter, ActionB(3));
    host.a.reserve(&mut host.reserve_counter, ActionA(4));
    host.a.register_all_reserved();
    host.tick();

    // The batch's final numbers sit directly above the pre-commit counter.
    assert_eq!(host.counter.value(), 4);
    let before = host.counter.value();
    host.requester.undo();
    let (out_a, out_b) = host.run_until_idle();

    // One external request, three deliveries, counter down by exactly 3.
    assert_eq!(out_a, vec![ActionA(4), ActionA(2)]);
    assert_eq!(out_b, vec![ActionB(3)]);
    assert_eq!(host.counter.value(), before - 3);
    assert_eq!(host.a.registered.len(), 1);
}

#[test]
fn empty_state_requests_are_noops() {
    let mut host = Host::new();
    for _ in 0..3 {
        host.requester.undo();
        let (out_a, out_b) = host.run_until_idle();
        assert_eq!(out_a.len(), 0);
        assert_eq!(out_b.len(), 0);
    }
    for _ in 0..2 {
        host.committer.commit();
        host.tick();
    }
    assert_eq!(host.counter.value(), 0);
    assert_eq!(host.reserve_counter.value(), 0);
    assert_eq!(host.a.registered.len(), 0);
    assert_eq!(host.a.reserve.len(), 0);
    assert_eq!(host.a.reserve_registered.len(), 0);
}

#[test]
fn commit_and_undo_same_tick_commit_wins() {
    let mut host = Host::new();
    host.a.register(&mut host.counter, ActionA(7));
    host.a.reserve(&mut host.reserve_counter, ActionA(8));
    host.a.register_all_reserved();
    host.requester.undo();

    // The commit is serviced first; the undo request is deferred, not dropped.
    let (ra, rb) = host.tick();
    assert!(ra.is_none() && rb.is_none());
    assert_eq!(host.a.reserve_registered.len(), 1);
    assert_eq!(host.requester.len(), 1);

    // The deferred undo then matches the just-committed batch entry.
    let (out_a, _) = host.run_until_idle();
    assert_eq!(out_a, vec![ActionA(8)]);
    assert_eq!(host.counter.value(), 1);
}

#[test]
fn decrement_saturates_at_zero() {
    let mut counter = UndoCounter::new();
    counter.decrement();
    assert_eq!(counter.value(), 0);
    counter.increment();
    decrement_counter(&mut counter, 5);
    assert_eq!(counter.value(), 0);
}

#[test]
fn registry_pop_is_newest_first() {
    let mut host = Host::new();
    host.a.register(&mut host.counter, ActionA(1));
    host.a.register(&mut host.counter, ActionA(2));
    assert_eq!(host.a.registered.pop(), Some(ActionA(2)));
    assert_eq!(host.a.registered.pop(), Some(ActionA(1)));
    assert_eq!(host.a.registered.pop(), None);
}

#[test]
fn commit_above_nonzero_counter() {
    let mut host = Host::new();
    host.a.register(&mut host.counter, ActionA(1));
    host.a.register(&mut host.counter, ActionA(2));
    host.b.reserve(&mut host.reserve_counter, ActionB(3));
    host.b.reserve(&mut host.reserve_counter, ActionB(4));
    host.committer.commit();
    host.tick();

    // Final numbers continue directly above the pre-commit counter value.
    assert_eq!(host.counter.value(), 4);
    assert_eq!(host.b.reserve_registered.get(0).no, 3);
    assert_eq!(host.b.reserve_registered.get(1).no, 4);

    host.requester.undo();
    let (out_a, out_b) = host.run_until_idle();
    assert_eq!(out_b, vec![ActionB(4), ActionB(3)]);
    assert_eq!(out_a.len(), 0);
    assert_eq!(host.counter.value(), 2);
}
