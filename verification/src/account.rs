use vstd::prelude::*;

use crate::error::{ApplyOutcome, ErrorKind};
use crate::event::{Event, EventKind};
use crate::history::LedgerHistory;

verus! {

/// One client account. `available` and `held` are balances in minor
/// units; the total balance is their sum, derived on demand and never
/// stored. `locked` is set once a chargeback has been applied and is
/// never cleared.
#[derive(Clone, Copy, Debug, PartialEq, Eq, Structural)]
pub struct Account {
    pub client_id: u16,
    pub available: u64,
    pub held: u64,
    pub locked: bool,
}

impl Account {
    /// Well-formed: the derived total fits the balance type, so
    /// `available + held` can always be computed.
    pub open spec fn wf(self) -> bool {
        self.available + self.held <= u64::MAX
    }

    /// The derived total balance: available plus held funds.
    pub fn total(&self) -> (t: u64)
        requires
            self.wf(),
        ensures
            t == self.available + self.held,
    {
        self.available + self.held
    }

    /// A deposit credits `available` in full, unless the new total would
    /// not fit the balance type, in which case nothing changes.
    pub open spec fn spec_deposit(self, amount: u64) -> (Account, Result<
        ApplyOutcome,
        ErrorKind,
    >) {
        if self.available + self.held + amount > u64::MAX {
            (self, Err(ErrorKind::BalanceOverflow))
        } else {
            (
                Account { available: (self.available + amount) as u64, ..self },
                Ok(ApplyOutcome::Applied),
            )
        }
    }

    /// A withdrawal debits `available` in full when it is covered, and
    /// changes nothing otherwise: `available` is never driven below zero.
    pub open spec fn spec_withdraw(self, amount: u64) -> (Account, Result<
        ApplyOutcome,
        ErrorKind,
    >) {
        if self.available >= amount {
            (
                Account { available: (self.available - amount) as u64, ..self },
                Ok(ApplyOutcome::Applied),
            )
        } else {
            (self, Err(ErrorKind::InsufficientFunds))
        }
    }

    /// A dispute moves the referenced amount from `available` to `held`;
    /// when `available` does not cover it, the whole remaining available
    /// balance is moved instead (the clamp policy), never producing a
    /// negative balance.
    pub open spec fn spec_dispute(self, amount: u64) -> (Account, ApplyOutcome) {
        if self.available >= amount {
            (
                Account {
                    available: (self.available - amount) as u64,
                    held: (self.held + amount) as u64,
                    ..self
                },
                ApplyOutcome::Applied,
            )
        } else {
            (
                Account { available: 0, held: (self.held + self.available) as u64, ..self },
                ApplyOutcome::UnderfundedClamp,
            )
        }
    }

    /// A resolve moves the referenced amount back from `held` to
    /// `available`; when `held` does not cover it, the whole remaining
    /// held balance is moved instead.
    pub open spec fn spec_resolve(self, amount: u64) -> (Account, ApplyOutcome) {
        if self.held >= amount {
            (
                Account {
                    available: (self.available + amount) as u64,
                    held: (self.held - amount) as u64,
                    ..self
                },
                ApplyOutcome::Applied,
            )
        } else {
            (
                Account { available: (self.available + self.held) as u64, held: 0, ..self },
                ApplyOutcome::UnderfundedClamp,
            )
        }
    }

    /// A chargeback removes the referenced amount from `held`, clamping
    /// to zero when `held` does not cover it, and locks the account on
    /// either branch.
    pub open spec fn spec_chargeback(self, amount: u64) -> (Account, ApplyOutcome) {
        if self.held >= amount {
            (
                Account { held: (self.held - amount) as u64, locked: true, ..self },
                ApplyOutcome::Applied,
            )
        } else {
            (Account { held: 0, locked: true, ..self }, ApplyOutcome::UnderfundedClamp)
        }
    }
}

/// What one event does to one account, against a given ledger history.
/// Deposits and withdrawals act on their own amount; disputes, resolves
/// and chargebacks act on the amount of the event their identifier
/// references, and are rejected when the history has no such entry.
pub open spec fn spec_account_apply(a: Account, e: Event, h: Map<u32, Event>) -> (Account, Result<
    ApplyOutcome,
    ErrorKind,
>) {
    match e.kind {
        EventKind::Deposit { amount } => a.spec_deposit(amount),
        EventKind::Withdrawal { amount } => a.spec_withdraw(amount),
        EventKind::Dispute => {
            if h.contains_key(e.event_id) {
                let step = a.spec_dispute(h[e.event_id].spec_amount());
                (step.0, Ok(step.1))
            } else {
                (a, Err(ErrorKind::UnknownReferencedEvent))
            }
        },
        EventKind::Resolve => {
            if h.contains_key(e.event_id) {
                let step = a.spec_resolve(h[e.event_id].spec_amount());
                (step.0, Ok(step.1))
            } else {
                (a, Err(ErrorKind::UnknownReferencedEvent))
            }
        },
        EventKind::Chargeback => {
            if h.contains_key(e.event_id) {
                let step = a.spec_chargeback(h[e.event_id].spec_amount());
                (step.0, Ok(step.1))
            } else {
                (a, Err(ErrorKind::UnknownReferencedEvent))
            }
        },
    }
}

/// One event keeps an account well formed, never changes whose account it
/// is, and changes nothing at all when it is rejected.
pub proof fn lemma_account_apply_wf(a: Account, e: Event, h: Map<u32, Event>)
    requires
        a.wf(),
    ensures
        ({
            let (a2, r) = spec_account_apply(a, e, h);
            &&& a2.wf()
            &&& a2.client_id == a.client_id
            &&& r is Err ==> a2 == a
        }),
{
}

impl Account {
    /// Applies one event to this account, looking any referenced event up
    /// in the history. This is the balance arithmetic alone: recording
    /// into the history, account creation and duplicate rejection belong
    /// to the engine.
    pub fn apply(&mut self, event: &Event, history: &LedgerHistory) -> (r: Result<
        ApplyOutcome,
        ErrorKind,
    >)
        requires
            old(self).wf(),
        ensures
            final(self).wf(),
            final(self).client_id == old(self).client_id,
            (*final(self), r) == spec_account_apply(*old(self), *event, history@),
    {
        match event.kind {
            EventKind::Deposit { amount } => {
                if amount <= u64::MAX - self.available - self.held {
                    self.available = self.available + amount;
                    Ok(ApplyOutcome::Applied)
                } else {
                    Err(ErrorKind::BalanceOverflow)
                }
            },
            EventKind::Withdrawal { amount } => {
                if self.available >= amount {
                    self.available = self.available - amount;
                    Ok(ApplyOutcome::Applied)
                } else {
                    Err(ErrorKind::InsufficientFunds)
                }
            },
            EventKind::Dispute => {
                match history.lookup(event.event_id) {
                    None => Err(ErrorKind::UnknownReferencedEvent),
                    Some(referenced) => {
                        let amount = referenced.amount();
                        if self.available >= amount {
                            self.available = self.available - amount;
                            self.held = self.held + amount;
                            Ok(ApplyOutcome::Applied)
                        } else {
                            self.held = self.held + self.available;
                            self.available = 0;
                            Ok(ApplyOutcome::UnderfundedClamp)
                        }
                    },
                }
            },
            EventKind::Resolve => {
                match history.lookup(event.event_id) {
                    None => Err(ErrorKind::UnknownReferencedEvent),
                    Some(referenced) => {
                        let amount = referenced.amount();
                        if self.held >= amount {
                            self.available = self.available + amount;
                            self.held = self.held - amount;
                            Ok(ApplyOutcome::Applied)
                        } else {
                            self.available = self.available + self.held;
                            self.held = 0;
                            Ok(ApplyOutcome::UnderfundedClamp)
                        }
                    },
                }
            },
            EventKind::Chargeback => {
                match history.lookup(event.event_id) {
                    None => Err(ErrorKind::UnknownReferencedEvent),
                    Some(referenced) => {
                        let amount = referenced.amount();
                        if self.held >= amount {
                            self.held = self.held - amount;
                            self.locked = true;
                            Ok(ApplyOutcome::Applied)
                        } else {
                            self.held = 0;
                            self.locked = true;
                            Ok(ApplyOutcome::UnderfundedClamp)
                        }
                    },
                }
            },
        }
    }
}

} // verus!
