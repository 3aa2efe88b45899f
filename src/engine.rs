use vstd::prelude::*;
use crate::account::{EntryKind, LedgerError};

verus! {

/// How many read-validate-write cycles a deposit or withdrawal makes before
/// it gives up on a busy account.
pub const MAX_ATTEMPTS: u32 = 3;

/// What a read of an account yields for the balance engine: its balance and
/// the version that a later write must name.
#[derive(Clone, Copy, Debug, PartialEq, Eq, Structural)]
pub struct Snapshot {
    pub balance: i64,
    pub version: u64,
}

/// A validated write: the balance to store, accepted only while the account
/// is still at `expected_version`.
#[derive(Clone, Copy, Debug, PartialEq, Eq, Structural)]
pub struct Write {
    pub expected_version: u64,
    pub new_balance: i64,
}

/// What to do after a write attempt.
#[derive(Clone, Copy, Debug, PartialEq, Eq)]
pub enum Next {
    /// Read the account again and make attempt number `0`.
    Retry(u32),
    /// Report this result to the caller.
    Done(Result<i64, LedgerError>),
}

/// The balance that `kind` of `amount` leads to from `balance`.
pub open spec fn moved(kind: EntryKind, balance: int, amount: int) -> int {
    match kind {
        EntryKind::Deposit => balance + amount,
        EntryKind::Withdrawal => balance - amount,
    }
}

/// The decision of one attempt, given what the read of the account gave.
pub open spec fn planned(kind: EntryKind, amount: i64, read: Result<Snapshot, LedgerError>) -> Result<Write, LedgerError> {
    if amount <= 0 {
        Err(LedgerError::InvalidAmount)
    } else {
        match read {
            Err(e) => Err(e),
            Ok(s) => {
                let b = moved(kind, s.balance as int, amount as int);
                if b < 0 {
                    Err(LedgerError::InsufficientFunds)
                } else if b > i64::MAX {
                    Err(LedgerError::InvalidAmount)
                } else {
                    Ok(Write { expected_version: s.version, new_balance: b as i64 })
                }
            },
        }
    }
}

/// The step after attempt number `attempt` ended in `outcome`, having tried
/// to store `new_balance`.
pub open spec fn next_step(attempt: u32, outcome: Result<(), LedgerError>, new_balance: i64) -> Next {
    match outcome {
        Ok(()) => Next::Done(Ok(new_balance)),
        Err(LedgerError::StaleWrite) => if attempt + 1 < MAX_ATTEMPTS {
            Next::Retry((attempt + 1) as u32)
        } else {
            Next::Done(Err(LedgerError::Busy))
        },
        Err(e) => Next::Done(Err(e)),
    }
}

/// Validates a deposit or withdrawal of `amount` against the account as it
/// was read, and computes the write that carries it out.
pub fn plan(kind: EntryKind, amount: i64, read: Result<Snapshot, LedgerError>) -> (r: Result<Write, LedgerError>)
    ensures
        r == planned(kind, amount, read),
{
    if amount <= 0 {
        return Err(LedgerError::InvalidAmount);
    }
    let s = match read {
        Err(e) => return Err(e),
        Ok(s) => s,
    };
    match kind {
        EntryKind::Deposit => {
            if s.balance > i64::MAX - amount {
                Err(LedgerError::InvalidAmount)
            } else if s.balance + amount < 0 {
                Err(LedgerError::InsufficientFunds)
            } else {
                Ok(Write { expected_version: s.version, new_balance: s.balance + amount })
            }
        },
        EntryKind::Withdrawal => {
            if s.balance < i64::MIN + amount || s.balance - amount < 0 {
                Err(LedgerError::InsufficientFunds)
            } else {
                Ok(Write { expected_version: s.version, new_balance: s.balance - amount })
            }
        },
    }
}

/// Decides, after a write attempt, whether the operation is finished or
/// another read-validate-write cycle is due. A concurrent write is retried
/// until the budget of attempts is spent; every other outcome is final.
pub fn settle(attempt: u32, outcome: Result<(), LedgerError>, new_balance: i64) -> (r: Next)
    requires
        attempt < MAX_ATTEMPTS,
    ensures
        r == next_step(attempt, outcome, new_balance),
{
    match outcome {
        Ok(()) => Next::Done(Ok(new_balance)),
        Err(LedgerError::StaleWrite) => {
            if attempt + 1 < MAX_ATTEMPTS {
                Next::Retry(attempt + 1)
            } else {
                Next::Done(Err(LedgerError::Busy))
            }
        },
        Err(e) => Next::Done(Err(e)),
    }
}

} // verus!
