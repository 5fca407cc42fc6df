use vstd::prelude::*;

verus! {

/// The kind of a ledger event. Deposits and withdrawals carry the amount
/// they move, in minor units; disputes, resolves and chargebacks carry no
/// amount of their own and instead act on a prior deposit or withdrawal,
/// named by the event identifier they carry.
#[derive(Clone, Copy, Debug, PartialEq, Eq, Structural)]
pub enum EventKind {
    Deposit { amount: u64 },
    Withdrawal { amount: u64 },
    Dispute,
    Resolve,
    Chargeback,
}

/// One ledger instruction, immutable once accepted.
///
/// For a deposit or withdrawal, `event_id` is the globally unique
/// identifier under which the event is recorded into the ledger history.
/// For a dispute, resolve or chargeback, `event_id` is a reference to the
/// original deposit or withdrawal whose amount the event acts on.
#[derive(Clone, Copy, Debug, PartialEq, Eq, Structural)]
pub struct Event {
    pub client_id: u16,
    pub event_id: u32,
    pub kind: EventKind,
}

impl Event {
    /// A monetary event moves an amount of its own and is the only kind
    /// recorded into the ledger history: a deposit or a withdrawal.
    pub open spec fn is_monetary(&self) -> bool {
        self.kind is Deposit || self.kind is Withdrawal
    }

    /// The amount carried by a monetary event; reference events carry none.
    pub open spec fn spec_amount(&self) -> u64 {
        match self.kind {
            EventKind::Deposit { amount } => amount,
            EventKind::Withdrawal { amount } => amount,
            EventKind::Dispute => 0,
            EventKind::Resolve => 0,
            EventKind::Chargeback => 0,
        }
    }

    /// The amount carried by a monetary event; reference events carry none.
    #[verifier::when_used_as_spec(spec_amount)]
    pub fn amount(&self) -> (a: u64)
        ensures
            a == self.spec_amount(),
    {
        match self.kind {
            EventKind::Deposit { amount } => amount,
            EventKind::Withdrawal { amount } => amount,
            EventKind::Dispute => 0,
            EventKind::Resolve => 0,
            EventKind::Chargeback => 0,
        }
    }
}

} // verus!
