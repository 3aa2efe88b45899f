use vstd::prelude::*;
use crate::account::{Account, AccountId, EntryKind, LedgerError, TransactionEntry};
use crate::engine::{next_step, planned, Next, Write};
use crate::ledger::{
    entries_for, latest, lemma_account_wf, lemma_latest_push, lemma_with_balance,
    lemma_with_entry, statement_text, texts, LedgerView,
};

verus! {

/// A log in which no entry belongs to `id` holds no history for it.
pub proof fn lemma_no_entries(log: Seq<TransactionEntry>, id: AccountId)
    requires
        forall|i: int| 0 <= i < log.len() ==> (#[trigger] log[i]).account != id,
    ensures
        entries_for(log, id) == Seq::<TransactionEntry>::empty(),
    decreases log.len(),
{
    if log.len() > 0 {
        assert forall|i: int| 0 <= i < log.drop_last().len() implies (
        #[trigger] log.drop_last()[i]).account != id by {
            assert(log.drop_last()[i] == log[i]);
        }
        lemma_no_entries(log.drop_last(), id);
    }
}

/// Creating an account that does not exist yet, with a non-negative balance,
/// succeeds, and the account then found has exactly that identity, owner and
/// balance.
pub proof fn lemma_create_then_find(v: LedgerView, owner: String, id: AccountId, balance: i64)
    requires
        v.wf(),
        balance >= 0,
        v.account(id) is None,
        v.clock < u64::MAX,
    ensures
        v.create_check(id, balance) == Ok::<(), LedgerError>(()),
        v.opened(owner, id, balance).account(id) == Some(
            Account { id, owner, balance, created_at: v.clock, version: v.clock },
        ),
{
    lemma_latest_push(
        v.docs,
        Account { id, owner, balance, created_at: v.clock, version: v.clock },
        id,
    );
}

/// Once an account is created, a second creation with the same identity is
/// refused as a duplicate; since a refused creation changes nothing, the
/// first account keeps its balance.
pub proof fn lemma_create_twice(
    v: LedgerView,
    owner: String,
    id: AccountId,
    balance: i64,
    again: i64,
)
    requires
        v.wf(),
        v.create_check(id, balance) == Ok::<(), LedgerError>(()),
        again >= 0,
    ensures
        v.opened(owner, id, balance).create_check(id, again) == Err::<(), LedgerError>(
            LedgerError::DuplicateAccount,
        ),
        v.opened(owner, id, balance).account(id) matches Some(a) && a.balance == balance,
{
    lemma_create_then_find(v, owner, id, balance);
}

/// A withdrawal of a positive amount no larger than the balance succeeds,
/// and the account then holds the balance less the amount.
pub proof fn lemma_withdraw_within_balance(v: LedgerView, id: AccountId, amount: i64)
    requires
        v.wf(),
        v.account(id) matches Some(a) && 0 < amount <= a.balance,
        v.clock < u64::MAX - 1,
    ensures
        v.transfer_check(id, EntryKind::Withdrawal, amount) == Ok::<i64, LedgerError>(
            (v.account(id).unwrap().balance - amount) as i64,
        ),
        v.recorded(
            id,
            EntryKind::Withdrawal,
            amount,
            (v.account(id).unwrap().balance - amount) as i64,
        ).account(id).unwrap().balance == v.account(id).unwrap().balance - amount,
{
    lemma_account_wf(v, id);
    lemma_with_balance(v, id, (v.account(id).unwrap().balance - amount) as i64);
}

/// A withdrawal larger than the balance is refused for insufficient funds;
/// a refused withdrawal changes neither the balance nor the log.
pub proof fn lemma_withdraw_beyond_balance(v: LedgerView, id: AccountId, amount: i64)
    requires
        v.wf(),
        v.account(id) matches Some(a) && amount > a.balance,
    ensures
        v.transfer_check(id, EntryKind::Withdrawal, amount) == Err::<i64, LedgerError>(
            LedgerError::InsufficientFunds,
        ),
{
    lemma_account_wf(v, id);
}

/// A deposit followed by a withdrawal of the same amount both succeed and
/// bring the balance back to where it was.
pub proof fn lemma_deposit_then_withdraw(v: LedgerView, id: AccountId, amount: i64)
    requires
        v.wf(),
        v.account(id) matches Some(a) && a.balance + amount <= i64::MAX,
        amount > 0,
        v.clock < u64::MAX - 3,
    ensures
        ({
            let b = v.account(id).unwrap().balance;
            let up = (b + amount) as i64;
            let mid = v.recorded(id, EntryKind::Deposit, amount, up);
            &&& v.transfer_check(id, EntryKind::Deposit, amount) == Ok::<i64, LedgerError>(up)
            &&& mid.transfer_check(id, EntryKind::Withdrawal, amount) == Ok::<i64, LedgerError>(b)
            &&& mid.recorded(id, EntryKind::Withdrawal, amount, b).account(id).unwrap().balance
                == b
        }),
{
    let b = v.account(id).unwrap().balance;
    let up = (b + amount) as i64;
    lemma_account_wf(v, id);
    lemma_with_balance(v, id, up);
    let v1 = v.with_balance(id, up);
    lemma_with_entry(v1, id, EntryKind::Deposit, amount, up);
    let mid = v1.with_entry(id, EntryKind::Deposit, amount, up);
    lemma_with_balance(mid, id, b);
}

/// Two tellers withdraw the whole balance of one account at once. Both read
/// the same version and plan the same write; the first write lands and leaves
/// a zero balance, the second is rejected as stale, and its retry finds the
/// funds gone. No balance ever becomes negative.
pub proof fn lemma_racing_withdrawals(v: LedgerView, id: AccountId, amount: i64)
    requires
        v.wf(),
        v.account(id) matches Some(a) && a.balance == amount,
        amount > 0,
        v.clock < u64::MAX,
    ensures
        ({
            let w = Write { expected_version: v.account(id).unwrap().version, new_balance: 0 };
            let after = v.with_balance(id, 0);
            &&& planned(EntryKind::Withdrawal, amount, v.read(id)) == Ok::<Write, LedgerError>(w)
            &&& v.update_check(id, w.expected_version, w.new_balance) == Ok::<(), LedgerError>(())
            &&& after.account(id).unwrap().balance == 0
            &&& after.update_check(id, w.expected_version, w.new_balance) == Err::<
                (),
                LedgerError,
            >(LedgerError::StaleWrite)
            &&& next_step(0, Err(LedgerError::StaleWrite), w.new_balance) == Next::Retry(1)
            &&& planned(EntryKind::Withdrawal, amount, after.read(id)) == Err::<Write, LedgerError>(
                LedgerError::InsufficientFunds,
            )
            &&& after.wf()
            &&& forall|i: int|
                0 <= i < after.docs.len() ==> (#[trigger] after.docs[i]).balance >= 0
        }),
{
    lemma_with_balance(v, id, 0);
    let after = v.with_balance(id, 0);
    assert forall|i: int| 0 <= i < after.docs.len() implies (#[trigger] after.docs[i]).balance
        >= 0 by {
        assert(after.docs[i].balance >= 0 && after.docs[i].version < after.clock);
    }
    lemma_account_wf(v, id);
}

/// A freshly created account has an empty history, and so an empty
/// statement.
pub proof fn lemma_fresh_account_history(v: LedgerView, owner: String, id: AccountId, balance: i64)
    requires
        v.wf(),
        v.create_check(id, balance) == Ok::<(), LedgerError>(()),
    ensures
        v.opened(owner, id, balance).history(id) == Seq::<TransactionEntry>::empty(),
        statement_text(v.opened(owner, id, balance).history(id)) == Seq::<Seq<char>>::empty(),
{
    assert forall|i: int| 0 <= i < v.log.len() implies (#[trigger] v.log[i]).account != id by {
        assert(latest(v.docs, v.log[i].account) is Some);
    }
    lemma_no_entries(v.log, id);
    assert(statement_text(Seq::<TransactionEntry>::empty()) =~= Seq::<Seq<char>>::empty());
}

/// Two statements of one account taken with no write in between read the
/// same: a statement's text is fixed by the ledger's contents.
pub proof fn lemma_statement_repeatable(
    v: LedgerView,
    id: AccountId,
    first: Seq<String>,
    second: Seq<String>,
)
    requires
        texts(first) == statement_text(v.history(id)),
        texts(second) == statement_text(v.history(id)),
    ensures
        texts(first) == texts(second),
{
}

} // verus!
