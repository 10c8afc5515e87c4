//! An undo-scheduling engine.
//!
//! Independent producers register opaque undo payloads; each registration is
//! assigned the next number of a global, monotonically adjusted counter.  On
//! an undo request the engine looks the current counter value up across all
//! per-type registries, delivers the one matching entry, and decrements the
//! counter.  Reservation batching groups several payloads so that a single
//! request unwinds the whole batch as one cascading step.
//!
//! The engine is single-threaded and tick-based: a host drives the phases
//! (detect, commit, dispatch, advance) once per tick, in that order, and
//! supplies the storage for the counters and the per-type areas.

use vstd::prelude::*;

pub mod counter;
pub mod extension;
pub mod request;
pub mod reserve;
pub mod sequencing;
pub mod undo_event;

use crate::counter::UndoCounter;
use crate::reserve::ReserveCounter;
use crate::undo_event::UndoEvent;

verus! {

/// Marker for a host that adds the undo engine to an application: the
/// host's adapter wires the engine's phases into its own tick loop.
#[derive(Debug, Default, Eq, PartialEq, Copy, Clone, Hash)]
pub struct UndoPlugin;

/// The first index of `s` whose entry carries the sequence number `no`,
/// or `-1` if no entry does.
pub open spec fn index_of_no<E>(s: Seq<UndoEvent<E>>, no: nat) -> int
    decreases s.len(),
{
    if s.len() == 0 {
        -1
    } else if s[0].no as nat == no {
        0
    } else {
        let r = index_of_no(s.drop_first(), no);
        if r < 0 {
            -1
        } else {
            r + 1
        }
    }
}

/// What [`index_of_no`] finds: a non-negative result is the first index
/// holding `no`; a negative result means no entry holds `no`.
pub proof fn lemma_index_of_no_properties<E>(s: Seq<UndoEvent<E>>, no: nat)
    ensures
        index_of_no(s, no) >= 0 ==> {
            &&& 0 <= index_of_no(s, no) < s.len()
            &&& s[index_of_no(s, no)].no as nat == no
            &&& forall|k: int| 0 <= k < index_of_no(s, no) ==> s[k].no as nat != no
        },
        index_of_no(s, no) < 0 ==> forall|k: int| 0 <= k < s.len() ==> s[k].no as nat != no,
    decreases s.len(),
{
    if s.len() > 0 && s[0].no as nat != no {
        lemma_index_of_no_properties(s.drop_first(), no);
        assert forall|k: int| 0 <= k < s.len() && index_of_no(s, no) < 0 implies s[k].no as nat
            != no by {
            if k > 0 {
                assert(s.drop_first()[k - 1] == s[k]);
            }
        }
        if index_of_no(s, no) >= 0 {
            let r = index_of_no(s.drop_first(), no);
            assert(s.drop_first()[r] == s[r + 1]);
            assert forall|k: int| 0 <= k < index_of_no(s, no) implies s[k].no as nat != no by {
                if k > 0 {
                    assert(s.drop_first()[k - 1] == s[k]);
                }
            }
        }
    }
}

/// The converse: the first index holding `no` is what [`index_of_no`] returns.
pub proof fn lemma_index_of_no_first<E>(s: Seq<UndoEvent<E>>, no: nat, i: int)
    requires
        0 <= i < s.len(),
        s[i].no as nat == no,
        forall|k: int| 0 <= k < i ==> s[k].no as nat != no,
    ensures
        index_of_no(s, no) == i,
    decreases i,
{
    if i > 0 {
        assert forall|k: int| 0 <= k < i - 1 implies s.drop_first()[k].no as nat != no by {
            assert(s.drop_first()[k] == s[k + 1]);
        }
        assert(s.drop_first()[i - 1] == s[i]);
        lemma_index_of_no_first(s.drop_first(), no, i - 1);
    }
}

/// The registry of one payload type: the ordered collection of sequenced
/// entries that are live (registered but not yet undone).
pub struct UndoRegisteredArea<E> {
    events: Vec<UndoEvent<E>>,
}

impl<E> View for UndoRegisteredArea<E> {
    type V = Seq<UndoEvent<E>>;

    closed spec fn view(&self) -> Seq<UndoEvent<E>> {
        self.events@
    }
}

impl<E> UndoRegisteredArea<E> {
    /// A fresh, empty registry.
    pub fn new() -> (r: Self)
        ensures
            r@ == Seq::<UndoEvent<E>>::empty(),
    {
        UndoRegisteredArea { events: Vec::new() }
    }

    /// The number of live entries.
    pub fn len(&self) -> (n: usize)
        ensures
            n == self@.len(),
    {
        self.events.len()
    }

    /// The entry at position `i`, oldest first.
    pub fn get(&self, i: usize) -> (e: &UndoEvent<E>)
        requires
            i < self@.len(),
        ensures
            *e == self@[i as int],
    {
        &self.events[i]
    }

    /// Appends an entry at the back of the registry.
    pub fn push(&mut self, e: UndoEvent<E>)
        ensures
            final(self)@ == old(self)@.push(e),
    {
        self.events.push(e);
    }

    /// Removes and returns the payload of the newest entry, or `None` if
    /// the registry is empty.
    pub fn pop(&mut self) -> (r: Option<E>)
        ensures
            old(self)@.len() == 0 ==> r is None && final(self)@ == old(self)@,
            old(self)@.len() > 0 ==> r == Some(old(self)@.last().inner) && final(self)@ == old(
                self,
            )@.drop_last(),
    {
        match self.events.pop() {
            Some(e) => Some(e.inner),
            None => None,
        }
    }

    /// The dispatch search: removes and returns the payload of the first
    /// entry whose sequence number equals the counter's current value, or
    /// `None`, leaving the registry unchanged, if no entry matches.
    ///
    /// Under the engine's sequencing invariant at most one entry of one
    /// registry across all payload types can match, and it is the newest
    /// entry of its registry.
    pub fn pop_if_has_latest(&mut self, counter: &UndoCounter) -> (r: Option<E>)
        ensures
            ({
                let j = index_of_no(old(self)@, counter@);
                if j >= 0 {
                    r == Some(old(self)@[j].inner) && final(self)@ == old(self)@.remove(j)
                        && crate::sequencing::nos(final(self)@) == crate::sequencing::nos(
                        old(self)@,
                    ).remove(j)
                } else {
                    r is None && final(self)@ == old(self)@
                }
            }),
    {
        let target = counter.value();
        let n = self.events.len();
        let mut i: usize = 0;
        while i < n
            invariant
                n == self.events.len(),
                i <= n,
                self.events@ == old(self)@,
                target == counter@,
                forall|k: int| 0 <= k < i ==> self.events@[k].no as nat != counter@,
            decreases n - i,
        {
            if self.events[i].no == target {
                proof {
                    lemma_index_of_no_first(self.events@, counter@, i as int);
                }
                let e = self.events.remove(i);
                proof {
                    assert(crate::sequencing::nos(self.events@) =~= crate::sequencing::nos(
                        old(self)@,
                    ).remove(i as int));
                }
                return Some(e.inner);
            }
            i = i + 1;
        }
        proof {
            lemma_index_of_no_properties(self.events@, counter@);
        }
        None
    }
}

impl<E> Default for UndoRegisteredArea<E> {
    /// The default registry is empty, like [`UndoRegisteredArea::new`].
    fn default() -> (r: Self)
        ensures
            r@ == Seq::<UndoEvent<E>>::empty(),
    {
        UndoRegisteredArea::new()
    }
}

/// The advance phase's counter bookkeeping: steps the undo counter down
/// once per delivery made this tick, saturating at zero.
pub fn decrement_counter(counter: &mut UndoCounter, deliveries: usize)
    ensures
        final(counter)@ == if old(counter)@ >= deliveries {
            (old(counter)@ - deliveries) as nat
        } else {
            0nat
        },
{
    let mut i: usize = 0;
    while i < deliveries
        invariant
            i <= deliveries,
            counter@ == if old(counter)@ >= i {
                (old(counter)@ - i) as nat
            } else {
                0nat
            },
        decreases deliveries - i,
    {
        counter.decrement();
        i = i + 1;
    }
}

/// The counter half of a commit: returns a snapshot of the undo counter
/// taken at commit start (final sequence numbers are assigned above it),
/// folds the reserve counter into the undo counter, and resets the reserve
/// counter to zero.
pub fn commit_counters(counter: &mut UndoCounter, reserve_counter: &mut ReserveCounter) -> (snapshot:
    UndoCounter)
    requires
        old(counter)@ + old(reserve_counter)@ <= usize::MAX,
    ensures
        snapshot@ == old(counter)@,
        final(counter)@ == old(counter)@ + old(reserve_counter)@,
        final(reserve_counter)@ == 0,
{
    let snapshot = *counter;
    counter.add_reserved(reserve_counter);
    reserve_counter.reset();
    snapshot
}

} // verus!
