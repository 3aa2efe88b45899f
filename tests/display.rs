use atm_ledger::{
    join_lines, outcome_body, render_decimal, render_line, render_statement, render_unsigned,
    EntryKind, AccountId, LedgerError, Message, Outcome, Request, State, TransactionEntry,
};

#[test]
fn default_state_is_menu() {
    assert_eq!(State::default(), State::Menu);
}

#[test]
fn messages_lead_to_pages() {
    assert_eq!(Message::LoginSelected.destination(), State::Login);
    assert_eq!(Message::UserOk.destination(), State::Menu);
    assert_eq!(Message::CreatingUser.destination(), State::User);
    assert_eq!(Message::WithdrawSelected.destination(), State::Cashed);
    assert_eq!(Message::DepositSelected.destination(), State::NewBalance);
    assert_eq!(Message::StatementSelected.destination(), State::Statement);
}

#[test]
fn messages_call_for_requests() {
    assert_eq!(Message::LoginSelected.request(), Request::Nothing);
    assert_eq!(Message::UserOk.request(), Request::Nothing);
    assert_eq!(Message::CreatingUser.request(), Request::OpenAccount);
    assert_eq!(Message::WithdrawSelected.request(), Request::Withdraw);
    assert_eq!(Message::DepositSelected.request(), Request::Deposit);
    assert_eq!(Message::StatementSelected.request(), Request::Statement);
}

#[test]
fn decimal_rendering() {
    assert_eq!(render_decimal(0), "0");
    assert_eq!(render_decimal(7), "7");
    assert_eq!(render_decimal(250), "250");
    assert_eq!(render_decimal(-42), "-42");
    assert_eq!(render_decimal(i64::MAX), "9223372036854775807");
    assert_eq!(render_decimal(i64::MIN), "-9223372036854775808");
    assert_eq!(render_unsigned(u64::MAX), "18446744073709551615");
    assert_eq!(render_unsigned(10), "10");
}

#[test]
fn line_rendering() {
    let e = TransactionEntry {
        account: AccountId::new(1, 2),
        kind: EntryKind::Withdrawal,
        amount: 30,
        resulting_balance: 70,
        recorded_at: 12,
    };
    assert_eq!(render_line(&e), "Withdrawal 30 -> balance 70 @ 12");
    assert_eq!(render_statement(&vec![e, e]).len(), 2);
    assert!(render_statement(&Vec::new()).is_empty());
}

#[test]
fn joining_lines() {
    assert_eq!(join_lines(&Vec::new()), "");
    assert_eq!(join_lines(&vec![String::from("a")]), "a");
    assert_eq!(
        join_lines(&vec![String::from("a"), String::from("bc"), String::from("")]),
        "a\nbc\n"
    );
}

#[test]
fn outcomes_are_shown_without_sentinels() {
    assert_eq!(outcome_body(&Outcome::Balance(Ok(0))), "0");
    assert_eq!(
        outcome_body(&Outcome::Balance(Err(LedgerError::InsufficientFunds))),
        "insufficient funds"
    );
    assert_eq!(
        outcome_body(&Outcome::Opened(Ok(String::from("ana #1/2")))),
        "ana #1/2"
    );
    assert_eq!(
        outcome_body(&Outcome::Opened(Err(LedgerError::DuplicateAccount))),
        "account already exists"
    );
    assert_eq!(
        outcome_body(&Outcome::Lines(Ok(vec![String::from("x"), String::from("y")]))),
        "x\ny"
    );
    assert_eq!(
        outcome_body(&Outcome::Lines(Err(LedgerError::AccountNotFound))),
        "account not found"
    );
}

#[test]
fn error_descriptions() {
    assert_eq!(LedgerError::Busy.describe(), "account busy, try again");
    assert_eq!(LedgerError::StaleWrite.describe(), "account changed concurrently");
    assert_eq!(LedgerError::StoreUnavailable.describe(), "store unavailable");
    assert_eq!(LedgerError::InvalidAmount.describe(), "invalid amount");
}

#[test]
fn confirmation_names_owner_and_identity() {
    assert_eq!(
        atm_ledger::confirmation_text("naomijub", AccountId::new(123456, 1029384756)),
        "naomijub #123456/1029384756"
    );
    assert_eq!(atm_ledger::confirmation_text("", AccountId::new(0, 9)), " #0/9");
}

#[test]
fn opening_rules() {
    assert_eq!(atm_ledger::opening_check(0, false), Ok(()));
    assert_eq!(atm_ledger::opening_check(-1, false), Err(LedgerError::InvalidAmount));
    assert_eq!(atm_ledger::opening_check(-1, true), Err(LedgerError::InvalidAmount));
    assert_eq!(atm_ledger::opening_check(10, true), Err(LedgerError::DuplicateAccount));
}
