//! The engine's sequencing model and its laws.
//!
//! The registries of all payload types share one sequence-number space,
//! drawn from the global undo counter.  This module models the registries
//! as the sequence of their entries' numbers, one inner sequence per
//! payload type, states the invariant that ties them to the counter, and
//! proves that every engine operation preserves it.

use vstd::prelude::*;
use crate::undo_event::UndoEvent;

verus! {

/// The sequence numbers of one registry's entries, in registry order.
pub open spec fn nos<E>(s: Seq<UndoEvent<E>>) -> Seq<nat> {
    s.map_values(|e: UndoEvent<E>| e.no as nat)
}

/// Sequence numbers within one registry grow strictly in insertion order.
pub open spec fn strictly_ascending(s: Seq<nat>) -> bool {
    forall|p: int, q: int| 0 <= p < q < s.len() ==> s[p] < s[q]
}

/// Every sequence number of `s` lies in `1 ..= c`.
pub open spec fn bounded_by(s: Seq<nat>, c: nat) -> bool {
    forall|p: int| 0 <= p < s.len() ==> 1 <= #[trigger] s[p] <= c
}

/// The sequence number `v` stands at position `j` of registry `i`.
pub open spec fn occurs_at(regs: Seq<Seq<nat>>, v: nat, i: int, j: int) -> bool {
    0 <= i < regs.len() && 0 <= j < regs[i].len() && regs[i][j] == v
}

/// The sequence number `v` is live somewhere across the registries.
pub open spec fn occurs(regs: Seq<Seq<nat>>, v: nat) -> bool {
    exists|i: int, j: int| occurs_at(regs, v, i, j)
}

/// No sequence number is live twice, neither within one registry nor
/// across two registries.
pub open spec fn at_most_once(regs: Seq<Seq<nat>>) -> bool {
    forall|i1: int, j1: int, i2: int, j2: int|
        #![trigger regs[i1][j1], regs[i2][j2]]
        0 <= i1 < regs.len() && 0 <= j1 < regs[i1].len() && 0 <= i2 < regs.len() && 0 <= j2
            < regs[i2].len() && regs[i1][j1] == regs[i2][j2] ==> i1 == i2 && j1 == j2
}

/// The engine's at-rest invariant: with the counter at `c`, the live
/// sequence numbers across all registries are exactly `{1, ..., c}`, each
/// exactly once, and each registry holds its share in ascending order.
pub open spec fn live_exactly(regs: Seq<Seq<nat>>, c: nat) -> bool {
    &&& forall|i: int| 0 <= i < regs.len() ==> strictly_ascending(#[trigger] regs[i])
    &&& forall|i: int| 0 <= i < regs.len() ==> bounded_by(#[trigger] regs[i], c)
    &&& at_most_once(regs)
    &&& forall|v: nat| 1 <= v <= c ==> #[trigger] occurs(regs, v)
}

/// A fresh engine: any number of payload types, every registry empty,
/// the counter at zero, satisfies the invariant.
pub proof fn lemma_initial_state(n: nat)
    ensures
        live_exactly(Seq::new(n, |i: int| Seq::<nat>::empty()), 0),
{
}

/// With the counter at zero nothing is live: every registry is empty, so
/// an undo request or a commit of an empty batch finds nothing to do.
pub proof fn lemma_empty_state_noop(regs: Seq<Seq<nat>>)
    requires
        live_exactly(regs, 0),
    ensures
        forall|i: int| 0 <= i < regs.len() ==> regs[i].len() == 0,
        forall|v: nat| !occurs(regs, v),
{
    assert forall|i: int| 0 <= i < regs.len() implies regs[i].len() == 0 by {
        if regs[i].len() > 0 {
            assert(1 <= regs[i][0] <= 0);
        }
    }
    assert forall|v: nat| !occurs(regs, v) by {
        if occurs(regs, v) {
            let (i, j) = choose|i: int, j: int| occurs_at(regs, v, i, j);
            assert(regs[i].len() == 0);
        }
    }
}

/// What one registration does to the model: the new counter value is
/// appended to the chosen registry as the entry's sequence number.
pub open spec fn register_step(regs: Seq<Seq<nat>>, c: nat, i: int) -> Seq<Seq<nat>> {
    regs.update(i, regs[i].push((c + 1) as nat))
}

/// The model after a whole sequence of registrations: `targets[t]` names
/// the registry (the payload type) the `t`-th call registered into.
pub open spec fn register_all(regs: Seq<Seq<nat>>, c: nat, targets: Seq<int>) -> Seq<Seq<nat>>
    decreases targets.len(),
{
    if targets.len() == 0 {
        regs
    } else {
        register_all(register_step(regs, c, targets[0]), (c + 1) as nat, targets.drop_first())
    }
}

/// Monotonic pairing: for every sequence of `register` calls, however the
/// calls mix the payload types, after `N` registrations from a fresh
/// engine the counter stands at `N` and the sequence numbers live across
/// all registries are exactly `{1, ..., N}`, with no repeats.  (Stated
/// from any state satisfying the invariant; a fresh engine is
/// [`lemma_initial_state`]'s, with `c == 0`.)
pub proof fn lemma_monotonic_pairing(regs: Seq<Seq<nat>>, c: nat, targets: Seq<int>)
    requires
        live_exactly(regs, c),
        forall|t: int| 0 <= t < targets.len() ==> 0 <= #[trigger] targets[t] < regs.len(),
    ensures
        live_exactly(register_all(regs, c, targets), (c + targets.len()) as nat),
    decreases targets.len(),
{
    if targets.len() > 0 {
        lemma_register_preserves(regs, c, targets[0]);
        let regs1 = register_step(regs, c, targets[0]);
        assert(regs1.len() == regs.len());
        assert forall|t: int| 0 <= t < targets.drop_first().len() implies 0 <= #[trigger] targets.drop_first()[t] < regs1.len() by {
            assert(targets.drop_first()[t] == targets[t + 1]);
        }
        lemma_monotonic_pairing(regs1, (c + 1) as nat, targets.drop_first());
    }
}

/// Monotonic pairing, one step: registering into any registry preserves
/// the invariant with the counter stepped up by one.
pub proof fn lemma_register_preserves(regs: Seq<Seq<nat>>, c: nat, i: int)
    requires
        live_exactly(regs, c),
        0 <= i < regs.len(),
    ensures
        live_exactly(register_step(regs, c, i), (c + 1) as nat),
{
    let regs2 = register_step(regs, c, i);
    let c2 = (c + 1) as nat;
    assert forall|a: int| 0 <= a < regs2.len() implies strictly_ascending(#[trigger] regs2[a])
        && bounded_by(regs2[a], c2) by {
        if a == i {
            assert forall|p: int, q: int| 0 <= p < q < regs2[i].len() implies regs2[i][p]
                < regs2[i][q] by {
                if q < regs[i].len() {
                    assert(regs[i][p] < regs[i][q]);
                } else {
                    assert(1 <= regs[i][p] <= c);
                }
            }
            assert forall|p: int| 0 <= p < regs2[i].len() implies 1 <= #[trigger] regs2[i][p]
                <= c2 by {
                if p < regs[i].len() {
                    assert(1 <= regs[i][p] <= c);
                }
            }
        } else {
            assert(regs2[a] == regs[a]);
            assert forall|p: int| 0 <= p < regs2[a].len() implies 1 <= #[trigger] regs2[a][p]
                <= c2 by {
                assert(1 <= regs[a][p] <= c);
            }
        }
    }
    assert forall|i1: int, j1: int, i2: int, j2: int|
        #![trigger regs2[i1][j1], regs2[i2][j2]]
        0 <= i1 < regs2.len() && 0 <= j1 < regs2[i1].len() && 0 <= i2 < regs2.len() && 0 <= j2
            < regs2[i2].len() && regs2[i1][j1] == regs2[i2][j2] implies i1 == i2 && j1 == j2 by {
        let new1 = i1 == i && j1 == regs[i].len();
        let new2 = i2 == i && j2 == regs[i].len();
        if new1 && new2 {
        } else if new1 {
            assert(regs2[i2][j2] == regs[i2][j2]);
            assert(1 <= regs[i2][j2] <= c);
            assert(regs2[i1][j1] == c2);
        } else if new2 {
            assert(regs2[i1][j1] == regs[i1][j1]);
            assert(1 <= regs[i1][j1] <= c);
            assert(regs2[i2][j2] == c2);
        } else {
            assert(regs2[i1][j1] == regs[i1][j1]);
            assert(regs2[i2][j2] == regs[i2][j2]);
        }
    }
    assert forall|v: nat| 1 <= v <= c2 implies #[trigger] occurs(regs2, v) by {
        if v == c2 {
            assert(occurs_at(regs2, v, i, regs[i].len() as int));
        } else {
            assert(occurs(regs, v));
            let (a, b) = choose|a: int, b: int| occurs_at(regs, v, a, b);
            assert(regs2[a][b] == regs[a][b]);
            assert(occurs_at(regs2, v, a, b));
        }
    }
}

/// Where an undo request lands: with the counter at `c >= 1` exactly one
/// registry holds the entry numbered `c`, and it is that registry's newest
/// entry.  The dispatch search therefore delivers exactly one entry, and
/// delivery always matches the registry holding the current counter value,
/// whatever the order the payload types registered in.
pub proof fn lemma_dispatch_target(regs: Seq<Seq<nat>>, c: nat) -> (t: (int, int))
    requires
        live_exactly(regs, c),
        c >= 1,
    ensures
        occurs_at(regs, c, t.0, t.1),
        t.1 == regs[t.0].len() - 1,
        forall|i: int, j: int| occurs_at(regs, c, i, j) ==> i == t.0 && j == t.1,
{
    assert(occurs(regs, c));
    let (i, j) = choose|i: int, j: int| occurs_at(regs, c, i, j);
    if j < regs[i].len() - 1 {
        assert(regs[i][j] < regs[i][j + 1]);
        assert(1 <= regs[i][j + 1] <= c);
    }
    assert forall|a: int, b: int| occurs_at(regs, c, a, b) implies a == i && b == j by {
        assert(regs[a][b] == regs[i][j]);
    }
    (i, j)
}

/// The dispatch and advance phases, one step: removing the newest entry of
/// the registry holding the counter value and stepping the counter down
/// preserves the invariant.
pub proof fn lemma_dispatch_preserves(regs: Seq<Seq<nat>>, c: nat, i: int)
    requires
        live_exactly(regs, c),
        c >= 1,
        0 <= i < regs.len(),
        regs[i].len() > 0,
        regs[i].last() == c,
    ensures
        live_exactly(regs.update(i, regs[i].drop_last()), (c - 1) as nat),
{
    let regs2 = regs.update(i, regs[i].drop_last());
    let c2 = (c - 1) as nat;
    let top = regs[i].len() - 1;
    assert forall|a: int| 0 <= a < regs2.len() implies strictly_ascending(#[trigger] regs2[a])
        && bounded_by(regs2[a], c2) by {
        assert forall|p: int, q: int| 0 <= p < q < regs2[a].len() implies regs2[a][p]
            < regs2[a][q] by {
            assert(regs[a][p] < regs[a][q]);
        }
        assert forall|p: int| 0 <= p < regs2[a].len() implies 1 <= #[trigger] regs2[a][p]
            <= c2 by {
            assert(regs2[a][p] == regs[a][p]);
            assert(1 <= regs[a][p] <= c);
            if regs[a][p] == c {
                assert(regs[a][p] == regs[i][top]);
                assert(a == i && p == top);
            }
        }
    }
    assert forall|i1: int, j1: int, i2: int, j2: int|
        #![trigger regs2[i1][j1], regs2[i2][j2]]
        0 <= i1 < regs2.len() && 0 <= j1 < regs2[i1].len() && 0 <= i2 < regs2.len() && 0 <= j2
            < regs2[i2].len() && regs2[i1][j1] == regs2[i2][j2] implies i1 == i2 && j1 == j2 by {
        assert(regs2[i1][j1] == regs[i1][j1]);
        assert(regs2[i2][j2] == regs[i2][j2]);
    }
    assert forall|v: nat| 1 <= v <= c2 implies #[trigger] occurs(regs2, v) by {
        assert(occurs(regs, v));
        let (a, b) = choose|a: int, b: int| occurs_at(regs, v, a, b);
        if a == i && b == top {
            assert(regs[a][b] == c);
        }
        assert(regs2[a][b] == regs[a][b]);
        assert(occurs_at(regs2, v, a, b));
    }
}

/// What a commit does to one registry: its reserved entries' local
/// numbers, shifted above the pre-commit counter value, are appended in
/// reservation order.
pub open spec fn promote_block(r: Seq<nat>, c: nat) -> Seq<nat> {
    r.map_values(|v: nat| (c + v) as nat)
}

/// What a commit does to all registries at once: every registry receives
/// its reserved block, and the counter absorbs the whole batch.
pub open spec fn promote_all(regs: Seq<Seq<nat>>, resv: Seq<Seq<nat>>, c: nat) -> Seq<Seq<nat>> {
    Seq::new(regs.len(), |i: int| regs[i] + promote_block(resv[i], c))
}

/// Batch promotion preserves the invariant.  The reserved areas satisfy
/// the same invariant as the registries, with the reserve counter in place
/// of the undo counter: the local numbers `1 ..= rc` are spread across the
/// payload types, each exactly once, ascending within each type.  After
/// the commit the final numbers `c+1 ..= c+rc` are live, a contiguous
/// block directly above the pre-commit counter value, and the counter
/// stands at `c + rc`.
pub proof fn lemma_commit_preserves(regs: Seq<Seq<nat>>, resv: Seq<Seq<nat>>, c: nat, rc: nat)
    requires
        live_exactly(regs, c),
        live_exactly(resv, rc),
        resv.len() == regs.len(),
    ensures
        live_exactly(promote_all(regs, resv, c), (c + rc) as nat),
{
    let regs2 = promote_all(regs, resv, c);
    let c2 = (c + rc) as nat;
    assert forall|a: int| 0 <= a < regs2.len() implies strictly_ascending(#[trigger] regs2[a])
        && bounded_by(regs2[a], c2) by {
        let off = regs[a].len() as int;
        assert forall|p: int| 0 <= p < regs2[a].len() implies 1 <= #[trigger] regs2[a][p]
            <= c2 by {
            if p < off {
                assert(regs2[a][p] == regs[a][p]);
                assert(1 <= regs[a][p] <= c);
            } else {
                assert(regs2[a][p] == c + resv[a][p - off]);
                assert(1 <= resv[a][p - off] <= rc);
            }
        }
        assert forall|p: int, q: int| 0 <= p < q < regs2[a].len() implies regs2[a][p]
            < regs2[a][q] by {
            if q < off {
                assert(regs[a][p] < regs[a][q]);
            } else if p >= off {
                assert(resv[a][p - off] < resv[a][q - off]);
            } else {
                assert(1 <= regs[a][p] <= c);
                assert(1 <= resv[a][q - off] <= rc);
                assert(regs2[a][q] == c + resv[a][q - off]);
            }
        }
    }
    assert forall|i1: int, j1: int, i2: int, j2: int|
        #![trigger regs2[i1][j1], regs2[i2][j2]]
        0 <= i1 < regs2.len() && 0 <= j1 < regs2[i1].len() && 0 <= i2 < regs2.len() && 0 <= j2
            < regs2[i2].len() && regs2[i1][j1] == regs2[i2][j2] implies i1 == i2 && j1 == j2 by {
        let off1 = regs[i1].len() as int;
        let off2 = regs[i2].len() as int;
        if j1 < off1 && j2 < off2 {
            assert(regs2[i1][j1] == regs[i1][j1]);
            assert(regs2[i2][j2] == regs[i2][j2]);
        } else if j1 >= off1 && j2 >= off2 {
            assert(regs2[i1][j1] == c + resv[i1][j1 - off1]);
            assert(regs2[i2][j2] == c + resv[i2][j2 - off2]);
            assert(resv[i1][j1 - off1] == resv[i2][j2 - off2]);
        } else if j1 < off1 {
            assert(1 <= regs[i1][j1] <= c);
            assert(1 <= resv[i2][j2 - off2] <= rc);
            assert(regs2[i2][j2] == c + resv[i2][j2 - off2]);
        } else {
            assert(1 <= regs[i2][j2] <= c);
            assert(1 <= resv[i1][j1 - off1] <= rc);
            assert(regs2[i1][j1] == c + resv[i1][j1 - off1]);
        }
    }
    assert forall|v: nat| 1 <= v <= c2 implies #[trigger] occurs(regs2, v) by {
        if v <= c {
            assert(occurs(regs, v));
            let (a, b) = choose|a: int, b: int| occurs_at(regs, v, a, b);
            assert(regs2[a][b] == regs[a][b]);
            assert(occurs_at(regs2, v, a, b));
        } else {
            let w = (v - c) as nat;
            assert(1 <= w <= rc);
            assert(occurs(resv, w));
            let (a, b) = choose|a: int, b: int| occurs_at(resv, w, a, b);
            let p = regs[a].len() + b;
            assert(regs2[a][p] == c + resv[a][b]);
            assert(occurs_at(regs2, v, a, p));
        }
    }
}

/// What the dispatch and advance phases of one tick do to the model: the
/// unique entry carrying the current counter value is removed (and the
/// counter then steps down by one).
pub open spec fn dispatch_step(regs: Seq<Seq<nat>>, c: nat) -> Seq<Seq<nat>> {
    let t = choose|t: (int, int)| occurs_at(regs, c, t.0, t.1);
    regs.update(t.0, regs[t.0].remove(t.1))
}

/// One dispatch tick preserves the invariant with the counter stepped down.
pub proof fn lemma_dispatch_step(regs: Seq<Seq<nat>>, c: nat)
    requires
        live_exactly(regs, c),
        c >= 1,
    ensures
        live_exactly(dispatch_step(regs, c), (c - 1) as nat),
{
    let (i, j) = lemma_dispatch_target(regs, c);
    let t = choose|t: (int, int)| occurs_at(regs, c, t.0, t.1);
    assert(occurs_at(regs, c, t.0, t.1));
    assert(t.0 == i && t.1 == j);
    assert(regs[i].remove(j) =~= regs[i].drop_last());
    lemma_dispatch_preserves(regs, c, i);
}

/// The model after `k` cascading dispatch ticks from counter value `c`.
pub open spec fn unwind(regs: Seq<Seq<nat>>, c: nat, k: nat) -> Seq<Seq<nat>>
    decreases k,
{
    if k == 0 {
        regs
    } else {
        unwind(dispatch_step(regs, c), (c - 1) as nat, (k - 1) as nat)
    }
}

/// Batch atomicity: from counter value `c + k`, `k` cascading dispatch
/// ticks each find exactly one entry to deliver — the one numbered
/// `c + k`, then `c + k - 1`, down to `c + 1` — and leave the invariant
/// holding at `c`: one external request unwinds a `k`-entry batch
/// committed at counter value `c` completely, in reverse reservation
/// order, and the counter decreases by exactly `k`.
///
/// The cascade keeps itself alive: the entry delivered at tick number
/// `t` (counting from 1) is the one promoted under reservation number
/// `k + 1 - t`, which exceeds 1 — and so re-issues a request — exactly
/// while `t < k`.
pub proof fn lemma_batch_cascade(regs: Seq<Seq<nat>>, c: nat, k: nat)
    requires
        live_exactly(regs, (c + k) as nat),
    ensures
        live_exactly(unwind(regs, (c + k) as nat, k), c),
        forall|t: nat|
            1 <= t <= k ==> occurs(
                #[trigger] unwind(regs, (c + k) as nat, (t - 1) as nat),
                (c + k + 1 - t) as nat,
            ) && ((c + k + 1 - t) - c > 1 <==> t < k),
    decreases k,
{
    if k > 0 {
        let c1 = (c + k) as nat;
        let regs1 = dispatch_step(regs, c1);
        lemma_dispatch_step(regs, c1);
        lemma_batch_cascade(regs1, c, (k - 1) as nat);
        assert forall|t: nat| 1 <= t <= k implies occurs(
            #[trigger] unwind(regs, c1, (t - 1) as nat),
            (c + k + 1 - t) as nat,
        ) by {
            if t == 1 {
                assert(unwind(regs, c1, 0) == regs);
                assert(occurs(regs, c1));
            } else {
                assert(unwind(regs, c1, (t - 1) as nat) == unwind(
                    regs1,
                    (c1 - 1) as nat,
                    (t - 2) as nat,
                ));
                assert(occurs(
                    unwind(regs1, (c + (k - 1)) as nat, ((t - 1) - 1) as nat),
                    (c + (k - 1) + 1 - (t - 1)) as nat,
                ));
            }
        }
    }
}

/// Last-in, first-out delivery: starting from an empty engine, after
/// payload A is registered (into the registry of any type) and payload B
/// after it (into any type's registry, the same or another), the first
/// undo request delivers B — the unique match lies atop registry `i2` —
/// the second delivers A from registry `i1`, and a third finds nothing.
pub proof fn lemma_lifo_delivery(regs: Seq<Seq<nat>>, i1: int, i2: int)
    requires
        live_exactly(regs, 0),
        0 <= i1 < regs.len(),
        0 <= i2 < regs.len(),
    ensures
        ({
            let r2 = register_step(register_step(regs, 0, i1), 1, i2);
            let d1 = dispatch_step(r2, 2);
            let d2 = dispatch_step(d1, 1);
            &&& live_exactly(r2, 2)
            &&& forall|a: int, b: int| occurs_at(r2, 2, a, b) ==> a == i2 && b == r2[i2].len() - 1
            &&& occurs_at(r2, 2, i2, r2[i2].len() - 1)
            &&& live_exactly(d1, 1)
            &&& forall|a: int, b: int| occurs_at(d1, 1, a, b) ==> a == i1
            &&& occurs(d1, 1)
            &&& live_exactly(d2, 0)
            &&& forall|v: nat| !occurs(d2, v)
        }),
{
    let r1 = register_step(regs, 0, i1);
    let r2 = register_step(r1, 1, i2);
    lemma_register_preserves(regs, 0, i1);
    lemma_register_preserves(r1, 1, i2);
    let (a2, b2) = lemma_dispatch_target(r2, 2);
    assert(occurs_at(r2, 2, i2, r2[i2].len() - 1));
    let d1 = dispatch_step(r2, 2);
    lemma_dispatch_step(r2, 2);
    let (a1, b1) = lemma_dispatch_target(d1, 1);
    assert(r1[i1][regs[i1].len() as int] == 1);
    lemma_empty_state_noop(regs);
    assert(regs[i1].len() == 0 && regs[i2].len() == 0);
    assert forall|a: int, b: int| occurs_at(d1, 1, a, b) implies a == i1 by {
        assert(occurs_at(r2, 2, a2, b2));
        assert(d1 == r2.update(a2, r2[a2].remove(b2)));
        assert(a2 == i2);
        if a != i2 {
            assert(d1[a] == r2[a]);
            assert(occurs_at(r2, 1, a, b));
            assert(occurs_at(r1, 1, a, b) || (a == i2 && b == r1[i2].len()));
            assert(occurs_at(r1, 1, a, b));
            if a != i1 {
                assert(r1[a] == regs[a]);
                assert(regs[a].len() == 0);
            }
        } else {
            assert(d1[i2] == r2[i2].remove(b2));
            if i1 == i2 {
            } else {
                assert(r2[i2] == regs[i2].push(2nat));
                assert(r2[i2].len() == 1);
                assert(d1[i2].len() == 0);
            }
        }
    }
    let d2 = dispatch_step(d1, 1);
    lemma_dispatch_step(d1, 1);
    lemma_empty_state_noop(d2);
}

/// The number of live entries across all registries.
pub open spec fn total_len(regs: Seq<Seq<nat>>) -> nat
    decreases regs.len(),
{
    if regs.len() == 0 {
        0
    } else {
        regs[0].len() + total_len(regs.drop_first())
    }
}

/// Replacing one registry changes the total by the difference in lengths.
proof fn lemma_total_len_update(regs: Seq<Seq<nat>>, i: int, s: Seq<nat>)
    requires
        0 <= i < regs.len(),
    ensures
        total_len(regs.update(i, s)) + regs[i].len() == total_len(regs) + s.len(),
    decreases regs.len(),
{
    let regs2 = regs.update(i, s);
    if i == 0 {
        assert(regs2.drop_first() =~= regs.drop_first());
    } else {
        assert(regs2.drop_first() =~= regs.drop_first().update(i - 1, s));
        lemma_total_len_update(regs.drop_first(), i - 1, s);
    }
}

/// Registries that are all empty hold no entries at all.
proof fn lemma_total_len_empty(regs: Seq<Seq<nat>>)
    requires
        forall|i: int| 0 <= i < regs.len() ==> regs[i].len() == 0,
    ensures
        total_len(regs) == 0,
    decreases regs.len(),
{
    if regs.len() > 0 {
        assert forall|i: int| 0 <= i < regs.drop_first().len() implies regs.drop_first()[i].len()
            == 0 by {
            assert(regs.drop_first()[i] == regs[i + 1]);
        }
        lemma_total_len_empty(regs.drop_first());
    }
}

/// The counter counts the live entries: under the invariant the number of
/// registered-but-not-yet-undone entries across all registries is exactly
/// the counter's value.
pub proof fn lemma_counter_counts_live_entries(regs: Seq<Seq<nat>>, c: nat)
    requires
        live_exactly(regs, c),
    ensures
        total_len(regs) == c,
    decreases c,
{
    if c == 0 {
        lemma_empty_state_noop(regs);
        lemma_total_len_empty(regs);
    } else {
        let (i, j) = lemma_dispatch_target(regs, c);
        lemma_dispatch_preserves(regs, c, i);
        lemma_total_len_update(regs, i, regs[i].drop_last());
        lemma_counter_counts_live_entries(regs.update(i, regs[i].drop_last()), (c - 1) as nat);
    }
}

/// The local reservation numbers of one reserved area's entries, in
/// reservation order.
pub open spec fn reserve_nos<E>(s: Seq<crate::reserve::UndoReserveEvent<E>>) -> Seq<nat> {
    s.map_values(|e: crate::reserve::UndoReserveEvent<E>| e.reserve_no as nat)
}

/// Reservation order preserved: the sequence numbers that the commit phase
/// of [`crate::extension::register_all_reserved_events`] appends are the
/// reserved entries' local numbers shifted above the pre-commit counter
/// value, in reservation order — exactly the model's promoted block.
pub proof fn lemma_promoted_nos<E>(s: Seq<crate::reserve::UndoReserveEvent<E>>, c: nat)
    requires
        forall|k: int| 0 <= k < s.len() ==> c + #[trigger] s[k].reserve_no <= usize::MAX,
    ensures
        nos(crate::extension::promoted(s, c)) == promote_block(reserve_nos(s), c),
{
    assert(nos(crate::extension::promoted(s, c)) =~= promote_block(reserve_nos(s), c));
}

/// The dispatch search of [`crate::UndoRegisteredArea::pop_if_has_latest`]
/// finds a match exactly when the registry's number sequence holds the
/// counter value.
pub proof fn lemma_index_of_no_contains<E>(s: Seq<UndoEvent<E>>, no: nat)
    ensures
        crate::index_of_no(s, no) >= 0 <==> nos(s).contains(no),
{
    crate::lemma_index_of_no_properties(s, no);
    let j = crate::index_of_no(s, no);
    if j >= 0 {
        assert(nos(s)[j] == no);
    } else if nos(s).contains(no) {
        let p = choose|p: int| 0 <= p < nos(s).len() && nos(s)[p] == no;
        assert(s[p].no as nat == no);
    }
}

/// Interleaved types: when two registries of different payload types share
/// the counter under the invariant, an undo request is answered by exactly
/// one of the two dispatch searches, and the entry it removes is the
/// newest entry of its registry — delivery matches the registry holding
/// the current counter value, regardless of how the types' registrations
/// were interleaved.
pub proof fn lemma_interleaved_dispatch<A, B>(ra: Seq<UndoEvent<A>>, rb: Seq<UndoEvent<B>>, c: nat)
    requires
        live_exactly(seq![nos(ra), nos(rb)], c),
        c >= 1,
    ensures
        crate::index_of_no(ra, c) >= 0 || crate::index_of_no(rb, c) >= 0,
        !(crate::index_of_no(ra, c) >= 0 && crate::index_of_no(rb, c) >= 0),
        crate::index_of_no(ra, c) >= 0 ==> crate::index_of_no(ra, c) == ra.len() - 1,
        crate::index_of_no(rb, c) >= 0 ==> crate::index_of_no(rb, c) == rb.len() - 1,
{
    let regs = seq![nos(ra), nos(rb)];
    let (i, j) = lemma_dispatch_target(regs, c);
    lemma_index_of_no_contains(ra, c);
    lemma_index_of_no_contains(rb, c);
    if i == 0 {
        assert(nos(ra)[j] == c);
        assert(nos(ra).contains(c));
        if nos(rb).contains(c) {
            let p = choose|p: int| 0 <= p < nos(rb).len() && nos(rb)[p] == c;
            assert(occurs_at(regs, c, 1, p));
        }
    } else {
        assert(nos(rb)[j] == c);
        assert(nos(rb).contains(c));
        if nos(ra).contains(c) {
            let p = choose|p: int| 0 <= p < nos(ra).len() && nos(ra)[p] == c;
            assert(occurs_at(regs, c, 0, p));
        }
    }
    crate::lemma_index_of_no_properties(ra, c);
    crate::lemma_index_of_no_properties(rb, c);
    if crate::index_of_no(ra, c) >= 0 {
        let q = crate::index_of_no(ra, c);
        assert(occurs_at(regs, c, 0, q));
        assert(q == j && i == 0);
        assert(j == nos(ra).len() - 1);
    }
    if crate::index_of_no(rb, c) >= 0 {
        let q = crate::index_of_no(rb, c);
        assert(occurs_at(regs, c, 1, q));
        assert(q == j && i == 1);
        assert(j == nos(rb).len() - 1);
    }
}

} // verus!
