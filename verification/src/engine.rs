use vstd::prelude::*;
use vstd::hash_map::HashMapWithView;

use crate::account::{spec_account_apply, Account};
use crate::error::{ApplyOutcome, ErrorKind};
use crate::event::{Event, EventKind};
use crate::history::LedgerHistory;

verus! {

broadcast use vstd::std_specs::hash::group_hash_axioms, vstd::seq_lib::lemma_seq_contains_after_push;

/// Every account sits under its own client identifier and is well formed.
pub open spec fn wf_accounts(m: Map<u16, Account>) -> bool {
    forall|c: u16| #[trigger] m.contains_key(c) ==> m[c].client_id == c && m[c].wf()
}

/// The shared rule for disputes, resolves and chargebacks: the referenced
/// event must be recorded, the target account must exist, and the
/// account-level step is then applied; such events are never themselves
/// recorded into the history.
pub open spec fn spec_apply_reference(
    accounts: Map<u16, Account>,
    history: Map<u32, Event>,
    e: Event,
) -> (Map<u16, Account>, Map<u32, Event>, Result<ApplyOutcome, ErrorKind>) {
    if !history.contains_key(e.event_id) {
        (accounts, history, Err(ErrorKind::UnknownReferencedEvent))
    } else if !accounts.contains_key(e.client_id) {
        (accounts, history, Err(ErrorKind::UnknownClient))
    } else {
        let step = spec_account_apply(accounts[e.client_id], e, history);
        (accounts.insert(e.client_id, step.0), history, step.1)
    }
}

/// What one event does to the whole ledger: the new account table, the
/// new history, and the reported result. A rejected event leaves both
/// maps exactly as they were; an accepted deposit or withdrawal is
/// recorded into the history under its identifier.
pub open spec fn spec_apply(
    accounts: Map<u16, Account>,
    history: Map<u32, Event>,
    e: Event,
) -> (Map<u16, Account>, Map<u32, Event>, Result<ApplyOutcome, ErrorKind>) {
    match e.kind {
        EventKind::Deposit { amount } => {
            if history.contains_key(e.event_id) {
                (accounts, history, Err(ErrorKind::DuplicateEvent))
            } else if !accounts.contains_key(e.client_id) {
                (
                    accounts.insert(
                        e.client_id,
                        Account {
                            client_id: e.client_id,
                            available: amount,
                            held: 0,
                            locked: false,
                        },
                    ),
                    history.insert(e.event_id, e),
                    Ok(ApplyOutcome::Applied),
                )
            } else {
                let step = spec_account_apply(accounts[e.client_id], e, history);
                if step.1 is Ok {
                    (accounts.insert(e.client_id, step.0), history.insert(e.event_id, e), step.1)
                } else {
                    (accounts, history, step.1)
                }
            }
        },
        EventKind::Withdrawal { .. } => {
            if history.contains_key(e.event_id) {
                (accounts, history, Err(ErrorKind::DuplicateEvent))
            } else if !accounts.contains_key(e.client_id) {
                (accounts, history, Err(ErrorKind::UnknownClient))
            } else {
                let step = spec_account_apply(accounts[e.client_id], e, history);
                if step.1 is Ok {
                    (accounts.insert(e.client_id, step.0), history.insert(e.event_id, e), step.1)
                } else {
                    (accounts, history, step.1)
                }
            }
        },
        EventKind::Dispute => spec_apply_reference(accounts, history, e),
        EventKind::Resolve => spec_apply_reference(accounts, history, e),
        EventKind::Chargeback => spec_apply_reference(accounts, history, e),
    }
}

/// Holds all client accounts and applies each incoming event to the
/// right one, in arrival order, using a `LedgerHistory` for reference
/// lookups. Accounts are created by the first deposit naming their
/// client, mutated by every later event for that client, and never
/// deleted. Events arriving for a locked account are not turned away:
/// whether to reject them is the caller's policy, the engine only
/// records and exposes the lock.
pub struct Engine {
    accounts: HashMapWithView<u16, Account>,
    clients: Vec<u16>,
}

impl View for Engine {
    type V = Map<u16, Account>;

    closed spec fn view(&self) -> Map<u16, Account> {
        self.accounts@
    }
}

impl Engine {
    /// The clients with an account, in the order their first deposit
    /// arrived; the snapshot lists accounts in this order.
    pub closed spec fn order(&self) -> Seq<u16> {
        self.clients@
    }

    pub open spec fn wf(&self) -> bool {
        &&& wf_accounts(self@)
        &&& self.order().no_duplicates()
        &&& forall|c: u16|
            #![trigger self@.contains_key(c)]
            #![trigger self.order().contains(c)]
            self@.contains_key(c) <==> self.order().contains(c)
    }

    /// An engine with no accounts.
    pub fn new() -> (engine: Self)
        ensures
            engine@ == Map::<u16, Account>::empty(),
            engine.order() == Seq::<u16>::empty(),
            engine.wf(),
    {
        Engine { accounts: HashMapWithView::new(), clients: Vec::new() }
    }

    /// Applies one event, in arrival order, and reports how it went. The
    /// outcome is exactly `spec_apply` of the old state: a rejected event
    /// changes nothing, an accepted deposit or withdrawal is also
    /// recorded into the history, and a first deposit appends its client
    /// to the snapshot order.
    pub fn apply(&mut self, event: &Event, history: &mut LedgerHistory) -> (r: Result<
        ApplyOutcome,
        ErrorKind,
    >)
        requires
            old(self).wf(),
            old(history).wf(),
        ensures
            final(self).wf(),
            final(history).wf(),
            ({
                let step = spec_apply(old(self)@, old(history)@, *event);
                &&& final(self)@ == step.0
                &&& final(history)@ == step.1
                &&& r == step.2
            }),
            final(self).order() == (if r is Ok && event.kind is Deposit && !old(self)@.contains_key(
                event.client_id,
            ) {
                old(self).order().push(event.client_id)
            } else {
                old(self).order()
            }),
    {
        match event.kind {
            EventKind::Deposit { amount } => {
                if history.contains(event.event_id) {
                    return Err(ErrorKind::DuplicateEvent);
                }
                let existing = match self.accounts.get(&event.client_id) {
                    Some(a) => Some(*a),
                    None => None,
                };
                match existing {
                    None => {
                        let account = Account {
                            client_id: event.client_id,
                            available: amount,
                            held: 0,
                            locked: false,
                        };
                        self.accounts.insert(event.client_id, account);
                        proof {
                            lemma_push_no_duplicates(self.clients@, event.client_id);
                        }
                        self.clients.push(event.client_id);
                        // cannot fail: the duplicate check above found the id free
                        let _ = history.record(*event);
                        Ok(ApplyOutcome::Applied)
                    },
                    Some(account0) => {
                        let mut account = account0;
                        match account.apply(event, history) {
                            Ok(outcome) => {
                                self.accounts.insert(event.client_id, account);
                                // cannot fail: the duplicate check above found the id free
                                let _ = history.record(*event);
                                Ok(outcome)
                            },
                            Err(kind) => Err(kind),
                        }
                    },
                }
            },
            EventKind::Withdrawal { .. } => {
                if history.contains(event.event_id) {
                    return Err(ErrorKind::DuplicateEvent);
                }
                let existing = match self.accounts.get(&event.client_id) {
                    Some(a) => Some(*a),
                    None => None,
                };
                match existing {
                    None => Err(ErrorKind::UnknownClient),
                    Some(account0) => {
                        let mut account = account0;
                        match account.apply(event, history) {
                            Ok(outcome) => {
                                self.accounts.insert(event.client_id, account);
                                // cannot fail: the duplicate check above found the id free
                                let _ = history.record(*event);
                                Ok(outcome)
                            },
                            Err(kind) => Err(kind),
                        }
                    },
                }
            },
            EventKind::Dispute | EventKind::Resolve | EventKind::Chargeback => {
                if !history.contains(event.event_id) {
                    return Err(ErrorKind::UnknownReferencedEvent);
                }
                let existing = match self.accounts.get(&event.client_id) {
                    Some(a) => Some(*a),
                    None => None,
                };
                match existing {
                    None => Err(ErrorKind::UnknownClient),
                    Some(account0) => {
                        let mut account = account0;
                        let r = account.apply(event, history);
                        self.accounts.insert(event.client_id, account);
                        r
                    },
                }
            },
        }
    }

    /// Replays a whole event stream, one event at a time in arrival
    /// order. The final balances are exactly the fold of the stream
    /// over `spec_apply`, and each outcome in the returned vector is
    /// exactly what applying its event at that point in the order
    /// produced.
    pub fn replay(&mut self, events: &Vec<Event>, history: &mut LedgerHistory) -> (outcomes: Vec<
        Result<ApplyOutcome, ErrorKind>,
    >)
        requires
            old(self).wf(),
            old(history).wf(),
        ensures
            final(self).wf(),
            final(history).wf(),
            ({
                let fin = crate::laws::spec_apply_all(old(self)@, old(history)@, events@);
                final(self)@ == fin.0 && final(history)@ == fin.1
            }),
            outcomes@.len() == events@.len(),
            forall|i: int|
                0 <= i < events@.len() ==> outcomes@[i] == ({
                    let mid = crate::laws::spec_apply_all(old(self)@, old(history)@, events@.take(i));
                    spec_apply(mid.0, mid.1, events@[i]).2
                }),
    {
        let ghost accounts0 = self@;
        let ghost history0 = history@;
        let mut outcomes: Vec<Result<ApplyOutcome, ErrorKind>> = Vec::new();
        let mut i: usize = 0;
        while i < events.len()
            invariant
                i <= events@.len(),
                outcomes@.len() == i,
                self.wf(),
                history.wf(),
                ({
                    let mid = crate::laws::spec_apply_all(accounts0, history0, events@.take(i as int));
                    self@ == mid.0 && history@ == mid.1
                }),
                forall|j: int|
                    0 <= j < i ==> outcomes@[j] == ({
                        let mid = crate::laws::spec_apply_all(accounts0, history0, events@.take(j));
                        spec_apply(mid.0, mid.1, events@[j]).2
                    }),
            decreases events@.len() - i,
        {
            let event = events[i];
            proof {
                crate::laws::lemma_spec_apply_all_push(
                    accounts0,
                    history0,
                    events@.take(i as int),
                    event,
                );
                assert(events@.take(i as int).push(event) =~= events@.take(i + 1 as int));
            }
            let r = self.apply(&event, history);
            outcomes.push(r);
            i = i + 1;
        }
        proof {
            assert(events@.take(events@.len() as int) =~= events@);
        }
        outcomes
    }

    /// The account of one client, if any.
    pub fn account_for(&self, client_id: u16) -> (r: Option<&Account>)
        ensures
            r matches Some(a) ==> self@.contains_key(client_id) && *a == self@[client_id],
            r is None ==> !self@.contains_key(client_id),
    {
        self.accounts.get(&client_id)
    }

    /// The final read-only view after a run: every known account, in the
    /// order their clients first appeared.
    pub fn snapshot(&self) -> (accounts: Vec<Account>)
        requires
            self.wf(),
        ensures
            accounts@.len() == self.order().len(),
            forall|i: int|
                0 <= i < accounts@.len() ==> accounts@[i] == self@[self.order()[i]],
    {
        let mut out: Vec<Account> = Vec::new();
        let mut i: usize = 0;
        while i < self.clients.len()
            invariant
                self.wf(),
                i <= self.clients.len(),
                self.clients@ == self.order(),
                out@.len() == i,
                forall|j: int| 0 <= j < i ==> out@[j] == self@[self.order()[j]],
            decreases self.clients.len() - i,
        {
            let c = self.clients[i];
            proof {
                assert(self.order().contains(c)) by {
                    assert(self.order()[i as int] == c);
                }
            }
            let account = match self.accounts.get(&c) {
                Some(a) => *a,
                None => {
                    // unreachable: every listed client has an account
                    proof {
                        assert(false);
                    }
                    Account { client_id: c, available: 0, held: 0, locked: false }
                },
            };
            out.push(account);
            i = i + 1;
        }
        out
    }
}

/// Appending a client not yet listed keeps the listing free of
/// duplicates.
proof fn lemma_push_no_duplicates(s: Seq<u16>, x: u16)
    requires
        s.no_duplicates(),
        !s.contains(x),
    ensures
        s.push(x).no_duplicates(),
{
    let t = s.push(x);
    assert forall|i: int, j: int| 0 <= i < t.len() && 0 <= j < t.len() && i != j implies t[i]
        != t[j] by {
        if i < s.len() && j < s.len() {
        } else if i == s.len() && 0 <= j < s.len() {
            assert(s[j] != x) by {
                if s[j] == x {
                    assert(s.contains(x));
                }
            }
        } else if j == s.len() && 0 <= i < s.len() {
            assert(s[i] != x) by {
                if s[i] == x {
                    assert(s.contains(x));
                }
            }
        }
    }
}

} // verus!
