// Amounts are fixed-point minor units with four decimal places:
// 5.0 currency units are written 50_000.

use ledger_engine::account::Account;
use ledger_engine::engine::Engine;
use ledger_engine::error::{ApplyOutcome, ErrorKind};
use ledger_engine::event::{Event, EventKind};
use ledger_engine::history::LedgerHistory;

fn deposit(client_id: u16, event_id: u32, amount: u64) -> Event {
    Event { client_id, event_id, kind: EventKind::Deposit { amount } }
}

fn withdrawal(client_id: u16, event_id: u32, amount: u64) -> Event {
    Event { client_id, event_id, kind: EventKind::Withdrawal { amount } }
}

fn dispute(client_id: u16, event_id: u32) -> Event {
    Event { client_id, event_id, kind: EventKind::Dispute }
}

fn resolve(client_id: u16, event_id: u32) -> Event {
    Event { client_id, event_id, kind: EventKind::Resolve }
}

fn chargeback(client_id: u16, event_id: u32) -> Event {
    Event { client_id, event_id, kind: EventKind::Chargeback }
}

fn account_of(engine: &Engine, client_id: u16) -> Account {
    *engine.account_for(client_id).expect("account should exist")
}

#[test]
fn deposit_then_withdrawal() {
    let mut engine = Engine::new();
    let mut history = LedgerHistory::new();
    assert_eq!(engine.apply(&deposit(1, 1, 50_000), &mut history), Ok(ApplyOutcome::Applied));
    assert_eq!(engine.apply(&withdrawal(1, 2, 30_000), &mut history), Ok(ApplyOutcome::Applied));
    let account = account_of(&engine, 1);
    assert_eq!(account.available, 20_000);
    assert_eq!(account.held, 0);
    assert_eq!(account.total(), 20_000);
    assert!(!account.locked);
}

#[test]
fn deposit_then_dispute_holds_funds() {
    let mut engine = Engine::new();
    let mut history = LedgerHistory::new();
    assert_eq!(engine.apply(&deposit(2, 10, 100_000), &mut history), Ok(ApplyOutcome::Applied));
    assert_eq!(engine.apply(&dispute(2, 10), &mut history), Ok(ApplyOutcome::Applied));
    let account = account_of(&engine, 2);
    assert_eq!(account.available, 0);
    assert_eq!(account.held, 100_000);
    assert_eq!(account.total(), 100_000);
    assert!(!account.locked);
}

#[test]
fn chargeback_after_dispute_locks_and_removes_funds() {
    let mut engine = Engine::new();
    let mut history = LedgerHistory::new();
    assert_eq!(engine.apply(&deposit(2, 10, 100_000), &mut history), Ok(ApplyOutcome::Applied));
    assert_eq!(engine.apply(&dispute(2, 10), &mut history), Ok(ApplyOutcome::Applied));
    assert_eq!(engine.apply(&chargeback(2, 10), &mut history), Ok(ApplyOutcome::Applied));
    let account = account_of(&engine, 2);
    assert_eq!(account.available, 0);
    assert_eq!(account.held, 0);
    assert_eq!(account.total(), 0);
    assert!(account.locked);
}

#[test]
fn dispute_of_unknown_reference_is_reported_and_ignored() {
    let mut engine = Engine::new();
    let mut history = LedgerHistory::new();
    assert_eq!(
        engine.apply(&dispute(3, 999), &mut history),
        Err(ErrorKind::UnknownReferencedEvent)
    );
    assert!(engine.account_for(3).is_none());
    assert_eq!(engine.snapshot().len(), 0);
}

#[test]
fn zero_amount_withdrawal_is_a_trivial_success() {
    let mut engine = Engine::new();
    let mut history = LedgerHistory::new();
    assert_eq!(engine.apply(&deposit(4, 20, 40_000), &mut history), Ok(ApplyOutcome::Applied));
    assert_eq!(engine.apply(&dispute(4, 20), &mut history), Ok(ApplyOutcome::Applied));
    let before = account_of(&engine, 4);
    assert_eq!((before.available, before.held), (0, 40_000));
    assert_eq!(engine.apply(&withdrawal(4, 21, 0), &mut history), Ok(ApplyOutcome::Applied));
    let after = account_of(&engine, 4);
    assert_eq!(after.available, 0);
    assert_eq!(after.held, 40_000);
    assert!(!after.locked);
}

#[test]
fn deposits_accumulate_and_hold_nothing() {
    let mut engine = Engine::new();
    let mut history = LedgerHistory::new();
    let amounts: [u64; 4] = [10_000, 25, 0, 999_999];
    let mut expected: u64 = 0;
    for (i, amount) in amounts.iter().enumerate() {
        let event = deposit(7, 100 + i as u32, *amount);
        assert_eq!(engine.apply(&event, &mut history), Ok(ApplyOutcome::Applied));
        expected += *amount;
    }
    let account = account_of(&engine, 7);
    assert_eq!(account.available, expected);
    assert_eq!(account.held, 0);
}

#[test]
fn withdrawal_beyond_available_is_rejected_unchanged() {
    let mut engine = Engine::new();
    let mut history = LedgerHistory::new();
    assert_eq!(engine.apply(&deposit(1, 1, 20_000), &mut history), Ok(ApplyOutcome::Applied));
    assert_eq!(
        engine.apply(&withdrawal(1, 2, 50_000), &mut history),
        Err(ErrorKind::InsufficientFunds)
    );
    let account = account_of(&engine, 1);
    assert_eq!(account.available, 20_000);
    assert_eq!(account.held, 0);
}

#[test]
fn rejected_withdrawal_is_not_recorded() {
    let mut engine = Engine::new();
    let mut history = LedgerHistory::new();
    assert_eq!(engine.apply(&deposit(1, 1, 20_000), &mut history), Ok(ApplyOutcome::Applied));
    assert_eq!(
        engine.apply(&withdrawal(1, 2, 50_000), &mut history),
        Err(ErrorKind::InsufficientFunds)
    );
    assert_eq!(
        engine.apply(&dispute(1, 2), &mut history),
        Err(ErrorKind::UnknownReferencedEvent)
    );
}

#[test]
fn dispute_then_resolve_restores_balances() {
    let mut engine = Engine::new();
    let mut history = LedgerHistory::new();
    assert_eq!(engine.apply(&deposit(5, 1, 100_000), &mut history), Ok(ApplyOutcome::Applied));
    assert_eq!(engine.apply(&deposit(5, 2, 30_000), &mut history), Ok(ApplyOutcome::Applied));
    assert_eq!(engine.apply(&dispute(5, 1), &mut history), Ok(ApplyOutcome::Applied));
    let mid = account_of(&engine, 5);
    assert_eq!((mid.available, mid.held), (30_000, 100_000));
    assert_eq!(engine.apply(&resolve(5, 1), &mut history), Ok(ApplyOutcome::Applied));
    let account = account_of(&engine, 5);
    assert_eq!(account.available, 130_000);
    assert_eq!(account.held, 0);
    assert!(!account.locked);
}

#[test]
fn dispute_of_withdrawal_uses_its_amount() {
    let mut engine = Engine::new();
    let mut history = LedgerHistory::new();
    assert_eq!(engine.apply(&deposit(6, 1, 100_000), &mut history), Ok(ApplyOutcome::Applied));
    assert_eq!(engine.apply(&withdrawal(6, 2, 40_000), &mut history), Ok(ApplyOutcome::Applied));
    assert_eq!(engine.apply(&dispute(6, 2), &mut history), Ok(ApplyOutcome::Applied));
    let account = account_of(&engine, 6);
    assert_eq!(account.available, 20_000);
    assert_eq!(account.held, 40_000);
}

#[test]
fn underfunded_dispute_clamps_to_available() {
    let mut engine = Engine::new();
    let mut history = LedgerHistory::new();
    assert_eq!(engine.apply(&deposit(8, 1, 50_000), &mut history), Ok(ApplyOutcome::Applied));
    assert_eq!(engine.apply(&withdrawal(8, 2, 40_000), &mut history), Ok(ApplyOutcome::Applied));
    // only 1.0 is left available, the disputed deposit was 5.0
    assert_eq!(engine.apply(&dispute(8, 1), &mut history), Ok(ApplyOutcome::UnderfundedClamp));
    let account = account_of(&engine, 8);
    assert_eq!(account.available, 0);
    assert_eq!(account.held, 10_000);
}

#[test]
fn underfunded_resolve_clamps_to_held() {
    let mut engine = Engine::new();
    let mut history = LedgerHistory::new();
    assert_eq!(engine.apply(&deposit(9, 1, 50_000), &mut history), Ok(ApplyOutcome::Applied));
    assert_eq!(engine.apply(&deposit(9, 2, 70_000), &mut history), Ok(ApplyOutcome::Applied));
    assert_eq!(engine.apply(&dispute(9, 1), &mut history), Ok(ApplyOutcome::Applied));
    // 5.0 held, but the resolve references the 7.0 deposit
    assert_eq!(engine.apply(&resolve(9, 2), &mut history), Ok(ApplyOutcome::UnderfundedClamp));
    let account = account_of(&engine, 9);
    assert_eq!(account.available, 120_000);
    assert_eq!(account.held, 0);
}

#[test]
fn chargeback_locks_on_both_branches() {
    // covered branch
    let mut engine = Engine::new();
    let mut history = LedgerHistory::new();
    assert_eq!(engine.apply(&deposit(1, 1, 50_000), &mut history), Ok(ApplyOutcome::Applied));
    assert_eq!(engine.apply(&dispute(1, 1), &mut history), Ok(ApplyOutcome::Applied));
    assert_eq!(engine.apply(&chargeback(1, 1), &mut history), Ok(ApplyOutcome::Applied));
    assert!(account_of(&engine, 1).locked);

    // clamp branch: held covers only part of the referenced amount
    let mut engine = Engine::new();
    let mut history = LedgerHistory::new();
    assert_eq!(engine.apply(&deposit(2, 1, 50_000), &mut history), Ok(ApplyOutcome::Applied));
    assert_eq!(engine.apply(&withdrawal(2, 2, 40_000), &mut history), Ok(ApplyOutcome::Applied));
    assert_eq!(engine.apply(&dispute(2, 1), &mut history), Ok(ApplyOutcome::UnderfundedClamp));
    assert_eq!(
        engine.apply(&chargeback(2, 1), &mut history),
        Ok(ApplyOutcome::UnderfundedClamp)
    );
    let account = account_of(&engine, 2);
    assert_eq!(account.held, 0);
    assert!(account.locked);
}

#[test]
fn total_is_available_plus_held_throughout() {
    let mut engine = Engine::new();
    let mut history = LedgerHistory::new();
    assert_eq!(engine.apply(&deposit(3, 1, 80_000), &mut history), Ok(ApplyOutcome::Applied));
    let a = account_of(&engine, 3);
    assert_eq!(a.total(), a.available + a.held);
    assert_eq!(engine.apply(&dispute(3, 1), &mut history), Ok(ApplyOutcome::Applied));
    let a = account_of(&engine, 3);
    assert_eq!(a.total(), a.available + a.held);
    assert_eq!(a.total(), 80_000);
    assert_eq!(engine.apply(&resolve(3, 1), &mut history), Ok(ApplyOutcome::Applied));
    let a = account_of(&engine, 3);
    assert_eq!(a.total(), a.available + a.held);
    assert_eq!(a.total(), 80_000);
}

#[test]
fn duplicate_event_id_is_rejected_without_any_change() {
    let mut engine = Engine::new();
    let mut history = LedgerHistory::new();
    assert_eq!(engine.apply(&deposit(1, 1, 50_000), &mut history), Ok(ApplyOutcome::Applied));
    assert_eq!(
        engine.apply(&deposit(1, 1, 70_000), &mut history),
        Err(ErrorKind::DuplicateEvent)
    );
    assert_eq!(
        engine.apply(&withdrawal(1, 1, 10_000), &mut history),
        Err(ErrorKind::DuplicateEvent)
    );
    let account = account_of(&engine, 1);
    assert_eq!(account.available, 50_000);
    assert_eq!(account.held, 0);
    assert_eq!(history.len(), 1);
}

#[test]
fn only_a_deposit_creates_an_account() {
    let mut engine = Engine::new();
    let mut history = LedgerHistory::new();
    assert_eq!(
        engine.apply(&withdrawal(1, 1, 10_000), &mut history),
        Err(ErrorKind::UnknownClient)
    );
    assert!(engine.account_for(1).is_none());
    // the reference exists but belongs to a client with no account yet
    assert_eq!(engine.apply(&deposit(2, 2, 10_000), &mut history), Ok(ApplyOutcome::Applied));
    assert_eq!(engine.apply(&dispute(3, 2), &mut history), Err(ErrorKind::UnknownClient));
    assert!(engine.account_for(3).is_none());
}

#[test]
fn deposit_overflowing_the_balance_type_is_rejected() {
    let mut engine = Engine::new();
    let mut history = LedgerHistory::new();
    assert_eq!(engine.apply(&deposit(1, 1, u64::MAX), &mut history), Ok(ApplyOutcome::Applied));
    assert_eq!(
        engine.apply(&deposit(1, 2, 1), &mut history),
        Err(ErrorKind::BalanceOverflow)
    );
    let account = account_of(&engine, 1);
    assert_eq!(account.available, u64::MAX);
}

#[test]
fn locked_account_still_accepts_events() {
    let mut engine = Engine::new();
    let mut history = LedgerHistory::new();
    assert_eq!(engine.apply(&deposit(1, 1, 50_000), &mut history), Ok(ApplyOutcome::Applied));
    assert_eq!(engine.apply(&dispute(1, 1), &mut history), Ok(ApplyOutcome::Applied));
    assert_eq!(engine.apply(&chargeback(1, 1), &mut history), Ok(ApplyOutcome::Applied));
    assert!(account_of(&engine, 1).locked);
    assert_eq!(engine.apply(&deposit(1, 2, 20_000), &mut history), Ok(ApplyOutcome::Applied));
    let account = account_of(&engine, 1);
    assert_eq!(account.available, 20_000);
    assert!(account.locked);
}

#[test]
fn snapshot_lists_accounts_in_first_deposit_order() {
    let mut engine = Engine::new();
    let mut history = LedgerHistory::new();
    assert_eq!(engine.apply(&deposit(30, 1, 10_000), &mut history), Ok(ApplyOutcome::Applied));
    assert_eq!(engine.apply(&deposit(10, 2, 20_000), &mut history), Ok(ApplyOutcome::Applied));
    assert_eq!(engine.apply(&deposit(20, 3, 30_000), &mut history), Ok(ApplyOutcome::Applied));
    assert_eq!(engine.apply(&deposit(10, 4, 5_000), &mut history), Ok(ApplyOutcome::Applied));
    let snapshot = engine.snapshot();
    let ids: Vec<u16> = snapshot.iter().map(|a| a.client_id).collect();
    assert_eq!(ids, vec![30, 10, 20]);
    assert_eq!(snapshot[1].available, 25_000);
    assert_eq!(snapshot[0].available, 10_000);
    assert_eq!(snapshot[2].available, 30_000);
}

#[test]
fn replay_folds_the_stream_in_arrival_order() {
    let mut engine = Engine::new();
    let mut history = LedgerHistory::new();
    let events = vec![
        deposit(1, 1, 50_000),
        withdrawal(1, 2, 30_000),
        withdrawal(1, 3, 90_000),
        deposit(2, 10, 100_000),
        dispute(2, 10),
        chargeback(2, 10),
        dispute(3, 999),
    ];
    let outcomes = engine.replay(&events, &mut history);
    assert_eq!(
        outcomes,
        vec![
            Ok(ApplyOutcome::Applied),
            Ok(ApplyOutcome::Applied),
            Err(ErrorKind::InsufficientFunds),
            Ok(ApplyOutcome::Applied),
            Ok(ApplyOutcome::Applied),
            Ok(ApplyOutcome::Applied),
            Err(ErrorKind::UnknownReferencedEvent),
        ]
    );
    let first = account_of(&engine, 1);
    assert_eq!((first.available, first.held, first.locked), (20_000, 0, false));
    let second = account_of(&engine, 2);
    assert_eq!((second.available, second.held, second.locked), (0, 0, true));
    assert!(engine.account_for(3).is_none());
}

#[test]
fn empty_engine_has_empty_snapshot() {
    let engine = Engine::new();
    assert!(engine.snapshot().is_empty());
}
