use atm_ledger::{EntryKind, Ledger, LedgerError};

const NUMBER: u32 = 123456;
const SECONDARY: u32 = 1029384756;

fn opened(balance: i64) -> Ledger {
    let mut ledger = Ledger::new();
    ledger
        .create(String::from("naomijub"), NUMBER, SECONDARY, balance)
        .unwrap();
    ledger
}

#[test]
fn create_then_find_returns_account() {
    let ledger = opened(300);
    let account = ledger.find(NUMBER, SECONDARY).unwrap();
    assert_eq!(account.balance, 300);
    assert_eq!(account.id.number, NUMBER);
    assert_eq!(account.id.secondary, SECONDARY);
    assert_eq!(account.owner, "naomijub");
}

#[test]
fn create_returns_confirmation() {
    let mut ledger = Ledger::new();
    let text = ledger
        .create(String::from("naomijub"), NUMBER, SECONDARY, 300)
        .unwrap();
    assert_eq!(text, "naomijub #123456/1029384756");
}

#[test]
fn create_with_zero_balance() {
    let ledger = opened(0);
    assert_eq!(ledger.find(NUMBER, SECONDARY).unwrap().balance, 0);
}

#[test]
fn create_negative_balance_is_invalid() {
    let mut ledger = Ledger::new();
    let r = ledger.create(String::from("ana"), 1, 2, -1);
    assert_eq!(r, Err(LedgerError::InvalidAmount));
    assert_eq!(ledger.find(1, 2).err(), Some(LedgerError::AccountNotFound));
}

#[test]
fn create_twice_is_duplicate() {
    let mut ledger = opened(300);
    let r = ledger.create(String::from("other"), NUMBER, SECONDARY, 5);
    assert_eq!(r, Err(LedgerError::DuplicateAccount));
    let account = ledger.find(NUMBER, SECONDARY).unwrap();
    assert_eq!(account.balance, 300);
    assert_eq!(account.owner, "naomijub");
}

#[test]
fn same_number_other_secondary_is_another_account() {
    let mut ledger = opened(300);
    assert!(ledger.create(String::from("b"), NUMBER, 7, 10).is_ok());
    assert_eq!(ledger.find(NUMBER, 7).unwrap().balance, 10);
    assert_eq!(ledger.find(NUMBER, SECONDARY).unwrap().balance, 300);
}

#[test]
fn find_missing_account() {
    let ledger = Ledger::new();
    assert_eq!(ledger.find(1, 1).err(), Some(LedgerError::AccountNotFound));
}

#[test]
fn withdraw_within_balance() {
    let mut ledger = opened(300);
    assert_eq!(ledger.withdraw(NUMBER, SECONDARY, 50), Ok(250));
    assert_eq!(ledger.find(NUMBER, SECONDARY).unwrap().balance, 250);
}

#[test]
fn withdraw_whole_balance() {
    let mut ledger = opened(300);
    assert_eq!(ledger.withdraw(NUMBER, SECONDARY, 300), Ok(0));
    assert_eq!(ledger.find(NUMBER, SECONDARY).unwrap().balance, 0);
}

#[test]
fn withdraw_beyond_balance() {
    let mut ledger = opened(300);
    assert_eq!(
        ledger.withdraw(NUMBER, SECONDARY, 301),
        Err(LedgerError::InsufficientFunds)
    );
    assert_eq!(ledger.find(NUMBER, SECONDARY).unwrap().balance, 300);
    assert!(ledger.history(NUMBER, SECONDARY).unwrap().is_empty());
}

#[test]
fn non_positive_amounts_are_invalid() {
    let mut ledger = opened(300);
    assert_eq!(ledger.withdraw(NUMBER, SECONDARY, 0), Err(LedgerError::InvalidAmount));
    assert_eq!(ledger.withdraw(NUMBER, SECONDARY, -5), Err(LedgerError::InvalidAmount));
    assert_eq!(ledger.deposit(NUMBER, SECONDARY, 0), Err(LedgerError::InvalidAmount));
    assert_eq!(ledger.deposit(NUMBER, SECONDARY, -5), Err(LedgerError::InvalidAmount));
    assert_eq!(ledger.find(NUMBER, SECONDARY).unwrap().balance, 300);
}

#[test]
fn invalid_amount_is_reported_before_missing_account() {
    let mut ledger = Ledger::new();
    assert_eq!(ledger.deposit(9, 9, 0), Err(LedgerError::InvalidAmount));
    assert_eq!(ledger.deposit(9, 9, 10), Err(LedgerError::AccountNotFound));
    assert_eq!(ledger.withdraw(9, 9, 10), Err(LedgerError::AccountNotFound));
}

#[test]
fn deposit_adds_to_balance() {
    let mut ledger = opened(300);
    assert_eq!(ledger.deposit(NUMBER, SECONDARY, 100), Ok(400));
    assert_eq!(ledger.find(NUMBER, SECONDARY).unwrap().balance, 400);
}

#[test]
fn deposit_beyond_range_is_invalid() {
    let mut ledger = opened(i64::MAX - 1);
    assert_eq!(ledger.deposit(NUMBER, SECONDARY, 2), Err(LedgerError::InvalidAmount));
    assert_eq!(ledger.deposit(NUMBER, SECONDARY, 1), Ok(i64::MAX));
}

#[test]
fn deposit_then_withdraw_round_trip() {
    let mut ledger = opened(300);
    assert_eq!(ledger.deposit(NUMBER, SECONDARY, 75), Ok(375));
    assert_eq!(ledger.withdraw(NUMBER, SECONDARY, 75), Ok(300));
    assert_eq!(ledger.find(NUMBER, SECONDARY).unwrap().balance, 300);
}

#[test]
fn writes_keep_identity_and_advance_version() {
    let mut ledger = opened(300);
    let before = ledger.find(NUMBER, SECONDARY).unwrap().clone();
    ledger.deposit(NUMBER, SECONDARY, 1).unwrap();
    let after = ledger.find(NUMBER, SECONDARY).unwrap();
    assert_eq!(after.created_at, before.created_at);
    assert!(after.version > before.version);
    assert_eq!(after.owner, before.owner);
}

#[test]
fn update_balance_checks_version() {
    let mut ledger = opened(300);
    let read = ledger.snapshot(NUMBER, SECONDARY).unwrap();
    assert_eq!(read.balance, 300);
    assert_eq!(
        ledger.update_balance(NUMBER, SECONDARY, read.version + 1, 10),
        Err(LedgerError::StaleWrite)
    );
    assert_eq!(
        ledger.update_balance(NUMBER, SECONDARY, read.version, -1),
        Err(LedgerError::InvalidAmount)
    );
    assert_eq!(
        ledger.update_balance(1, 1, read.version, 10),
        Err(LedgerError::AccountNotFound)
    );
    assert_eq!(ledger.update_balance(NUMBER, SECONDARY, read.version, 10), Ok(()));
    assert_eq!(ledger.find(NUMBER, SECONDARY).unwrap().balance, 10);
    assert_eq!(
        ledger.update_balance(NUMBER, SECONDARY, read.version, 20),
        Err(LedgerError::StaleWrite)
    );
}

#[test]
fn snapshot_of_missing_account() {
    let ledger = Ledger::new();
    assert_eq!(ledger.snapshot(3, 4), Err(LedgerError::AccountNotFound));
}

#[test]
fn history_lists_entries_in_order() {
    let mut ledger = opened(0);
    ledger.create(String::from("b"), 1, 1, 0).unwrap();
    ledger.deposit(NUMBER, SECONDARY, 100).unwrap();
    ledger.deposit(1, 1, 5).unwrap();
    ledger.withdraw(NUMBER, SECONDARY, 30).unwrap();
    let h = ledger.history(NUMBER, SECONDARY).unwrap();
    assert_eq!(h.len(), 2);
    assert_eq!(h[0].kind, EntryKind::Deposit);
    assert_eq!(h[0].amount, 100);
    assert_eq!(h[0].resulting_balance, 100);
    assert_eq!(h[1].kind, EntryKind::Withdrawal);
    assert_eq!(h[1].amount, 30);
    assert_eq!(h[1].resulting_balance, 70);
    assert!(h[0].recorded_at < h[1].recorded_at);
    let other = ledger.history(1, 1).unwrap();
    assert_eq!(other.len(), 1);
    assert_eq!(other[0].amount, 5);
}

#[test]
fn history_of_missing_account() {
    let ledger = Ledger::new();
    assert_eq!(ledger.history(1, 2), Err(LedgerError::AccountNotFound));
}

#[test]
fn statement_of_fresh_account_is_empty() {
    let ledger = opened(300);
    assert_eq!(ledger.statement(NUMBER, SECONDARY), Ok(Vec::new()));
}

#[test]
fn statement_after_deposit_and_withdrawal() {
    let mut ledger = opened(0);
    ledger.deposit(NUMBER, SECONDARY, 100).unwrap();
    ledger.withdraw(NUMBER, SECONDARY, 30).unwrap();
    let lines = ledger.statement(NUMBER, SECONDARY).unwrap();
    assert_eq!(
        lines,
        vec![
            String::from("Deposit 100 -> balance 100 @ 2"),
            String::from("Withdrawal 30 -> balance 70 @ 4"),
        ]
    );
}

#[test]
fn statement_twice_is_identical() {
    let mut ledger = opened(10);
    ledger.deposit(NUMBER, SECONDARY, 7).unwrap();
    let first = ledger.statement(NUMBER, SECONDARY).unwrap();
    let second = ledger.statement(NUMBER, SECONDARY).unwrap();
    assert_eq!(first, second);
    assert_eq!(first.len(), 1);
}

#[test]
fn statement_of_missing_account() {
    let ledger = Ledger::new();
    assert_eq!(ledger.statement(5, 5), Err(LedgerError::AccountNotFound));
}

#[test]
fn refused_withdrawal_leaves_statement_unchanged() {
    let mut ledger = opened(10);
    let before = ledger.statement(NUMBER, SECONDARY).unwrap();
    assert_eq!(
        ledger.withdraw(NUMBER, SECONDARY, 11),
        Err(LedgerError::InsufficientFunds)
    );
    assert_eq!(ledger.statement(NUMBER, SECONDARY).unwrap(), before);
}
