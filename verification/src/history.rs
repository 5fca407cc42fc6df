use vstd::prelude::*;
use vstd::hash_map::HashMapWithView;

use crate::error::ErrorKind;
use crate::event::Event;

verus! {

broadcast use vstd::std_specs::hash::group_hash_axioms;

/// Every stored entry sits under its own identifier and is a deposit or a
/// withdrawal: reference events are never recorded, they only point into
/// the history.
pub open spec fn wf_history(h: Map<u32, Event>) -> bool {
    forall|id: u32| #[trigger] h.contains_key(id) ==> h[id].event_id == id && h[id].is_monetary()
}

/// An append-only record of every monetary event accepted for processing,
/// addressable by event identifier. Entries are write-once: the first
/// event recorded under an identifier is the one retained, and later
/// events reusing it are rejected, never overwritten. The history only
/// grows; nothing is ever evicted.
pub struct LedgerHistory {
    entries: HashMapWithView<u32, Event>,
}

impl View for LedgerHistory {
    type V = Map<u32, Event>;

    closed spec fn view(&self) -> Map<u32, Event> {
        self.entries@
    }
}

impl LedgerHistory {
    pub open spec fn wf(&self) -> bool {
        wf_history(self@)
    }

    /// An empty history.
    pub fn new() -> (h: Self)
        ensures
            h@ == Map::<u32, Event>::empty(),
            h.wf(),
    {
        LedgerHistory { entries: HashMapWithView::new() }
    }

    /// Records a monetary event under its own identifier. Fails with
    /// `DuplicateEvent`, leaving the stored copy untouched, if the
    /// identifier is already taken.
    pub fn record(&mut self, event: Event) -> (r: Result<(), ErrorKind>)
        requires
            old(self).wf(),
            event.is_monetary(),
        ensures
            final(self).wf(),
            r == (if old(self)@.contains_key(event.event_id) {
                Err::<(), ErrorKind>(ErrorKind::DuplicateEvent)
            } else {
                Ok::<(), ErrorKind>(())
            }),
            r is Ok ==> final(self)@ == old(self)@.insert(event.event_id, event),
            r is Err ==> final(self)@ == old(self)@,
    {
        if self.entries.contains_key(&event.event_id) {
            Err(ErrorKind::DuplicateEvent)
        } else {
            self.entries.insert(event.event_id, event);
            Ok(())
        }
    }

    /// Looks the identifier up: the recorded event, exactly matched, or
    /// absent.
    pub fn lookup(&self, event_id: u32) -> (r: Option<&Event>)
        ensures
            r matches Some(e) ==> self@.contains_key(event_id) && *e == self@[event_id],
            r is None ==> !self@.contains_key(event_id),
    {
        self.entries.get(&event_id)
    }

    /// Whether an event is recorded under the identifier.
    pub fn contains(&self, event_id: u32) -> (r: bool)
        ensures
            r == self@.contains_key(event_id),
    {
        self.entries.contains_key(&event_id)
    }

    /// How many events the history holds.
    pub fn len(&self) -> (n: usize)
        ensures
            n == self@.len(),
    {
        self.entries.len()
    }
}

} // verus!
