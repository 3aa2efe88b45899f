//! An account ledger over an append-only, versioned document store: accounts
//! keyed by a two-part identity, deposits and withdrawals applied with
//! optimistic concurrency, and statements rebuilt from the transaction log.

mod account;
mod atm;
mod engine;
mod laws;
mod ledger;
mod text;

pub use atm::{
    destination_of, join_lines, joined, outcome_body, outcome_text, request_of, Message, Outcome,
    Request, State,
};
pub use account::{error_text, Account, AccountId, EntryKind, LedgerError, TransactionEntry};
pub use engine::{moved, next_step, plan, planned, settle, Next, Snapshot, Write, MAX_ATTEMPTS};
pub use laws::{
    lemma_create_then_find, lemma_create_twice, lemma_deposit_then_withdraw,
    lemma_fresh_account_history, lemma_no_entries, lemma_racing_withdrawals,
    lemma_statement_repeatable, lemma_withdraw_beyond_balance, lemma_withdraw_within_balance,
};
pub use ledger::{
    confirmation, confirmation_text, entries_for, id_of, kind_text, latest, line_text,
    opening_check, opening_result, render_line, render_statement, statement_text, texts,
    time_ordered, Ledger, LedgerView,
};
pub use text::{decimal, digit_char, digits, render_decimal, render_unsigned};
