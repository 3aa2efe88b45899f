use vstd::prelude::*;

verus! {

/// The identity of an account: its number and its secondary (PIN-like) id.
/// Fixed when the account is created.
#[derive(Clone, Copy, Debug, PartialEq, Eq, Structural)]
pub struct AccountId {
    pub number: u32,
    pub secondary: u32,
}

/// One version of an account document. `created_at` and `version` are the
/// store's logical timestamps of the first and of the latest write.
#[derive(Clone, Debug)]
pub struct Account {
    pub id: AccountId,
    pub owner: String,
    pub balance: i64,
    pub created_at: u64,
    pub version: u64,
}

/// The direction of a ledger entry; its amount is always positive.
#[derive(Clone, Copy, Debug, PartialEq, Eq, Structural)]
pub enum EntryKind {
    Deposit,
    Withdrawal,
}

/// One immutable record of an accepted deposit or withdrawal.
#[derive(Clone, Copy, Debug, PartialEq, Eq, Structural)]
pub struct TransactionEntry {
    pub account: AccountId,
    pub kind: EntryKind,
    pub amount: i64,
    pub resulting_balance: i64,
    pub recorded_at: u64,
}

/// The typed failures of the ledger operations.
#[derive(Clone, Copy, Debug, PartialEq, Eq, Structural)]
pub enum LedgerError {
    /// A non-positive amount, a negative balance, or a balance out of range.
    InvalidAmount,
    /// An account with that identity already exists.
    DuplicateAccount,
    /// No account has that identity.
    AccountNotFound,
    /// The withdrawal would overdraw the account.
    InsufficientFunds,
    /// The account changed since it was read.
    StaleWrite,
    /// Every attempt of the retry budget met a concurrent write.
    Busy,
    /// The store could not take the write.
    StoreUnavailable,
}

impl AccountId {
    pub fn new(number: u32, secondary: u32) -> (r: AccountId)
        ensures
            r.number == number,
            r.secondary == secondary,
    {
        AccountId { number, secondary }
    }
}

impl LedgerError {
    /// A short human-readable description of the failure.
    pub fn describe(&self) -> (r: &'static str)
        ensures
            r@ == error_text(*self),
    {
        match self {
            LedgerError::InvalidAmount => "invalid amount",
            LedgerError::DuplicateAccount => "account already exists",
            LedgerError::AccountNotFound => "account not found",
            LedgerError::InsufficientFunds => "insufficient funds",
            LedgerError::StaleWrite => "account changed concurrently",
            LedgerError::Busy => "account busy, try again",
            LedgerError::StoreUnavailable => "store unavailable",
        }
    }
}

/// The description of each failure.
pub open spec fn error_text(e: LedgerError) -> Seq<char> {
    match e {
        LedgerError::InvalidAmount => "invalid amount"@,
        LedgerError::DuplicateAccount => "account already exists"@,
        LedgerError::AccountNotFound => "account not found"@,
        LedgerError::InsufficientFunds => "insufficient funds"@,
        LedgerError::StaleWrite => "account changed concurrently"@,
        LedgerError::Busy => "account busy, try again"@,
        LedgerError::StoreUnavailable => "store unavailable"@,
    }
}

} // verus!
