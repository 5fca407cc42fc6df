use vstd::prelude::*;

use crate::account::{lemma_account_apply_wf, Account};
use crate::engine::{spec_apply, wf_accounts};
use crate::error::{ApplyOutcome, ErrorKind};
use crate::event::Event;
use crate::history::wf_history;

verus! {

/// The available balance of a client, counting a missing account as zero.
pub open spec fn avail_of(accounts: Map<u16, Account>, c: u16) -> int {
    if accounts.contains_key(c) {
        accounts[c].available as int
    } else {
        0
    }
}

/// The held balance of a client, counting a missing account as zero.
pub open spec fn held_of(accounts: Map<u16, Account>, c: u16) -> int {
    if accounts.contains_key(c) {
        accounts[c].held as int
    } else {
        0
    }
}

/// The sum of the amounts carried by a sequence of events.
pub open spec fn sum_amounts(events: Seq<Event>) -> int
    decreases events.len(),
{
    if events.len() == 0 {
        0
    } else {
        events[0].spec_amount() + sum_amounts(events.drop_first())
    }
}

/// The fold of a whole event sequence over `spec_apply`, in arrival
/// order: the account table and history after every event has been
/// offered to the engine, rejected ones changing nothing.
pub open spec fn spec_apply_all(
    accounts: Map<u16, Account>,
    history: Map<u32, Event>,
    events: Seq<Event>,
) -> (Map<u16, Account>, Map<u32, Event>)
    decreases events.len(),
{
    if events.len() == 0 {
        (accounts, history)
    } else {
        let step = spec_apply(accounts, history, events[0]);
        spec_apply_all(step.0, step.1, events.drop_first())
    }
}

/// Folding one more event: replaying `events.push(e)` is replaying
/// `events` and then applying `e` to what that produced.
pub proof fn lemma_spec_apply_all_push(
    accounts: Map<u16, Account>,
    history: Map<u32, Event>,
    events: Seq<Event>,
    e: Event,
)
    ensures
        ({
            let mid = spec_apply_all(accounts, history, events);
            let last = spec_apply(mid.0, mid.1, e);
            spec_apply_all(accounts, history, events.push(e)) == (last.0, last.1)
        }),
    decreases events.len(),
{
    if events.len() == 0 {
        let last = spec_apply(accounts, history, e);
        assert(events.push(e)[0] == e);
        assert(events.push(e).drop_first() =~= events);
        assert(spec_apply_all(accounts, history, events.push(e)) == spec_apply_all(
            last.0,
            last.1,
            events.push(e).drop_first(),
        ));
        assert(spec_apply_all(last.0, last.1, events.push(e).drop_first()) == (last.0, last.1));
    } else {
        let step = spec_apply(accounts, history, events[0]);
        assert(events.push(e)[0] == events[0]);
        assert(events.push(e).drop_first() =~= events.drop_first().push(e));
        assert(spec_apply_all(accounts, history, events.push(e)) == spec_apply_all(
            step.0,
            step.1,
            events.drop_first().push(e),
        ));
        assert(spec_apply_all(accounts, history, events) == spec_apply_all(
            step.0,
            step.1,
            events.drop_first(),
        ));
        lemma_spec_apply_all_push(step.0, step.1, events.drop_first(), e);
    }
}

/// Amounts are unsigned, so their sum never goes below zero.
pub proof fn lemma_sum_amounts_nonneg(events: Seq<Event>)
    ensures
        sum_amounts(events) >= 0,
    decreases events.len(),
{
    if events.len() > 0 {
        lemma_sum_amounts_nonneg(events.drop_first());
    }
}

/// Law: replaying any sequence of fresh deposits for one client credits
/// that client's available balance by exactly the sum of the amounts and
/// leaves the held balance untouched — in particular, a client whose
/// history is deposits alone ends with the sum available and nothing
/// held.
pub proof fn lemma_deposits_accumulate(
    accounts: Map<u16, Account>,
    history: Map<u32, Event>,
    events: Seq<Event>,
    c: u16,
)
    requires
        forall|i: int|
            0 <= i < events.len() ==> (#[trigger] events[i]).client_id == c && events[i].kind
                is Deposit,
        forall|i: int, j: int|
            0 <= i < j < events.len() ==> events[i].event_id != events[j].event_id,
        forall|i: int| 0 <= i < events.len() ==> !history.contains_key(
            (#[trigger] events[i]).event_id,
        ),
        avail_of(accounts, c) + held_of(accounts, c) + sum_amounts(events) <= u64::MAX,
    ensures
        ({
            let fin = spec_apply_all(accounts, history, events);
            &&& avail_of(fin.0, c) == avail_of(accounts, c) + sum_amounts(events)
            &&& held_of(fin.0, c) == held_of(accounts, c)
        }),
    decreases events.len(),
{
    if events.len() > 0 {
        let e = events[0];
        let step = spec_apply(accounts, history, e);
        let rest = events.drop_first();
        lemma_sum_amounts_nonneg(rest);
        assert forall|i: int| 0 <= i < rest.len() implies (#[trigger] rest[i]).client_id == c
            && rest[i].kind is Deposit && !step.1.contains_key(rest[i].event_id) by {
            assert(rest[i] == events[i + 1]);
        }
        assert forall|i: int, j: int| 0 <= i < j < rest.len() implies rest[i].event_id
            != rest[j].event_id by {
            assert(rest[i] == events[i + 1]);
            assert(rest[j] == events[j + 1]);
        }
        lemma_deposits_accumulate(step.0, step.1, rest, c);
    }
}

/// Law: a withdrawal never drives the available balance negative. The
/// balances are unsigned, so a negative value cannot even be written
/// down; what the law pins is the branch that makes it so: a withdrawal
/// is applied exactly when it is covered, debits exactly its amount, and
/// on any rejection changes nothing at all.
pub proof fn lemma_withdrawal_never_overdraws(
    accounts: Map<u16, Account>,
    history: Map<u32, Event>,
    e: Event,
)
    requires
        e.kind is Withdrawal,
    ensures
        ({
            let step = spec_apply(accounts, history, e);
            let c = e.client_id;
            &&& step.2 is Ok ==> {
                &&& accounts.contains_key(c)
                &&& e.spec_amount() <= accounts[c].available
                &&& step.0[c].available == accounts[c].available - e.spec_amount()
                &&& step.0[c].held == accounts[c].held
            }
            &&& step.2 is Err ==> step.0 == accounts && step.1 == history
        }),
{
}

/// Law: a dispute followed by a resolve referencing the same original
/// event restores the available and held balances exactly, when no other
/// event comes between and the disputed amount is covered by the
/// available balance (an underfunded dispute clamps, and a clamp need
/// not round-trip).
pub proof fn lemma_dispute_resolve_round_trip(
    accounts: Map<u16, Account>,
    history: Map<u32, Event>,
    dispute: Event,
    resolve: Event,
)
    requires
        wf_accounts(accounts),
        dispute.kind is Dispute,
        resolve.kind is Resolve,
        resolve.client_id == dispute.client_id,
        resolve.event_id == dispute.event_id,
        history.contains_key(dispute.event_id),
        accounts.contains_key(dispute.client_id),
        history[dispute.event_id].spec_amount() <= accounts[dispute.client_id].available,
    ensures
        ({
            let step1 = spec_apply(accounts, history, dispute);
            let step2 = spec_apply(step1.0, step1.1, resolve);
            &&& step1.2 == Ok::<ApplyOutcome, ErrorKind>(ApplyOutcome::Applied)
            &&& step2.2 == Ok::<ApplyOutcome, ErrorKind>(ApplyOutcome::Applied)
            &&& step2.0 == accounts
            &&& step2.1 == history
        }),
{
    let c = dispute.client_id;
    let step1 = spec_apply(accounts, history, dispute);
    let step2 = spec_apply(step1.0, step1.1, resolve);
    assert(step2.0[c] == accounts[c]);
    assert(step2.0 =~= accounts);
}

/// Law: a chargeback that is applied always leaves the account locked,
/// whichever funds-sufficiency branch was taken.
pub proof fn lemma_chargeback_locks(accounts: Map<u16, Account>, history: Map<u32, Event>, e: Event)
    requires
        e.kind is Chargeback,
    ensures
        ({
            let step = spec_apply(accounts, history, e);
            step.2 is Ok ==> step.0.contains_key(e.client_id) && step.0[e.client_id].locked
        }),
{
}

/// Law: applying any event preserves well-formedness of the account
/// table and the history, so `available + held` stays computable — the
/// derived total equals available plus held for every account at every
/// point in processing.
pub proof fn lemma_wf_preserved(accounts: Map<u16, Account>, history: Map<u32, Event>, e: Event)
    requires
        wf_accounts(accounts),
        wf_history(history),
    ensures
        ({
            let step = spec_apply(accounts, history, e);
            &&& wf_accounts(step.0)
            &&& wf_history(step.1)
        }),
{
    if accounts.contains_key(e.client_id) {
        lemma_account_apply_wf(accounts[e.client_id], e, history);
    }
}

/// Law: an event reusing an already-recorded identifier is rejected as a
/// duplicate, the original entry is retained, and no account state is
/// altered.
pub proof fn lemma_duplicate_rejected(accounts: Map<u16, Account>, history: Map<u32, Event>, e: Event)
    requires
        e.is_monetary(),
        history.contains_key(e.event_id),
    ensures
        spec_apply(accounts, history, e) == (
            accounts,
            history,
            Err::<ApplyOutcome, ErrorKind>(ErrorKind::DuplicateEvent),
        ),
{
}

/// Law: the locked state is absorbing — once a chargeback has locked an
/// account, no later event of any kind unlocks it.
pub proof fn lemma_lock_is_absorbing(
    accounts: Map<u16, Account>,
    history: Map<u32, Event>,
    e: Event,
    c: u16,
)
    requires
        accounts.contains_key(c),
        accounts[c].locked,
    ensures
        ({
            let step = spec_apply(accounts, history, e);
            step.0.contains_key(c) && step.0[c].locked
        }),
{
}

/// Law: a dispute or a resolve only moves funds between the available
/// and held balances — on either funds-sufficiency branch the derived
/// total is unchanged.
pub proof fn lemma_dispute_resolve_conserve_total(
    accounts: Map<u16, Account>,
    history: Map<u32, Event>,
    e: Event,
)
    requires
        wf_accounts(accounts),
        e.kind is Dispute || e.kind is Resolve,
    ensures
        ({
            let step = spec_apply(accounts, history, e);
            let c = e.client_id;
            accounts.contains_key(c) ==> step.0.contains_key(c) && step.0[c].available
                + step.0[c].held == accounts[c].available + accounts[c].held
        }),
{
}

/// Law: every event's effect is all-or-nothing — a rejected event leaves
/// both the account table and the history exactly as they were.
pub proof fn lemma_rejected_event_changes_nothing(
    accounts: Map<u16, Account>,
    history: Map<u32, Event>,
    e: Event,
)
    ensures
        ({
            let step = spec_apply(accounts, history, e);
            step.2 is Err ==> step.0 == accounts && step.1 == history
        }),
{
}

} // verus!
