use vstd::prelude::*;

verus! {

/// Why an event was rejected. A rejected event never changes any account
/// or the ledger history: processing simply continues with the next event.
#[derive(Clone, Copy, Debug, PartialEq, Eq, Structural)]
pub enum ErrorKind {
    /// A withdrawal asked for more than the account's available balance.
    InsufficientFunds,
    /// A dispute, resolve or chargeback referenced an event identifier
    /// absent from the ledger history; treated as an upstream data error.
    UnknownReferencedEvent,
    /// A deposit or withdrawal reused an already-recorded event
    /// identifier; the original stays recorded, the newcomer is rejected.
    DuplicateEvent,
    /// The event targeted a client with no account, and only a deposit may
    /// create one.
    UnknownClient,
    /// A deposit would push the account's total balance past what the
    /// fixed-point representation can hold.
    BalanceOverflow,
}

/// How an accepted event was applied.
#[derive(Clone, Copy, Debug, PartialEq, Eq, Structural)]
pub enum ApplyOutcome {
    /// The event's nominal effect was applied in full.
    Applied,
    /// The referenced amount exceeded the balance it was to be taken from,
    /// so the whole remaining balance was moved instead of failing; an
    /// audit channel should be told, though processing continues.
    UnderfundedClamp,
}

} // verus!
