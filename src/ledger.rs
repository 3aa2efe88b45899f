use vstd::prelude::*;
use crate::account::{Account, AccountId, EntryKind, LedgerError, TransactionEntry};
use crate::engine::{plan, planned, Snapshot};
use crate::text::{decimal, digits, render_decimal, render_unsigned};

verus! {

/// The identity made of an account number and a secondary id.
pub open spec fn id_of(number: u32, secondary: u32) -> AccountId {
    AccountId { number, secondary }
}

/// The latest version, among `docs`, of the document of account `id`.
pub open spec fn latest(docs: Seq<Account>, id: AccountId) -> Option<Account>
    decreases docs.len(),
{
    if docs.len() == 0 {
        None
    } else if docs.last().id == id {
        Some(docs.last())
    } else {
        latest(docs.drop_last(), id)
    }
}

/// The entries of account `id` in `log`, in the order they were written.
pub open spec fn entries_for(log: Seq<TransactionEntry>, id: AccountId) -> Seq<TransactionEntry>
    decreases log.len(),
{
    if log.len() == 0 {
        Seq::empty()
    } else {
        let earlier = entries_for(log.drop_last(), id);
        if log.last().account == id {
            earlier.push(log.last())
        } else {
            earlier
        }
    }
}

/// The text handed back when an account is opened.
pub open spec fn confirmation(owner: Seq<char>, id: AccountId) -> Seq<char> {
    owner + " #"@ + digits(id.number as nat) + "/"@ + digits(id.secondary as nat)
}

/// The name of an entry's direction.
pub open spec fn kind_text(kind: EntryKind) -> Seq<char> {
    match kind {
        EntryKind::Deposit => "Deposit"@,
        EntryKind::Withdrawal => "Withdrawal"@,
    }
}

/// One statement line: `<kind> <amount> -> balance <resulting_balance> @ <recorded_at>`.
pub open spec fn line_text(e: TransactionEntry) -> Seq<char> {
    kind_text(e.kind) + " "@ + decimal(e.amount as int) + " -> balance "@ + decimal(
        e.resulting_balance as int,
    ) + " @ "@ + digits(e.recorded_at as nat)
}

/// The lines of a statement of `entries`.
pub open spec fn statement_text(entries: Seq<TransactionEntry>) -> Seq<Seq<char>> {
    entries.map_values(|e: TransactionEntry| line_text(e))
}

/// The text of each of `lines`.
pub open spec fn texts(lines: Seq<String>) -> Seq<Seq<char>> {
    lines.map_values(|s: String| s@)
}

/// The contents of a ledger: every version of every account document, in the
/// order they were written, the transaction log, and the store's logical
/// clock, which is the timestamp that the next write receives.
pub ghost struct LedgerView {
    pub docs: Seq<Account>,
    pub log: Seq<TransactionEntry>,
    pub clock: u64,
}

impl LedgerView {
    /// Balances are never negative; every timestamp lies before the clock;
    /// entries carry positive amounts, belong to an existing account, and are
    /// logged in increasing time order.
    pub open spec fn wf(self) -> bool {
        &&& forall|i: int|
            #![trigger self.docs[i]]
            0 <= i < self.docs.len() ==> self.docs[i].balance >= 0
                && self.docs[i].version < self.clock
        &&& forall|i: int|
            #![trigger self.log[i]]
            0 <= i < self.log.len() ==> self.log[i].amount > 0
                && self.log[i].resulting_balance >= 0
                && self.log[i].recorded_at < self.clock
                && latest(self.docs, self.log[i].account) is Some
        &&& time_ordered(self.log)
    }

    /// The current state of account `id`, if it exists.
    pub open spec fn account(self, id: AccountId) -> Option<Account> {
        latest(self.docs, id)
    }

    /// What a read of account `id` gives the balance engine.
    pub open spec fn read(self, id: AccountId) -> Result<Snapshot, LedgerError> {
        match self.account(id) {
            Some(a) => Ok(Snapshot { balance: a.balance, version: a.version }),
            None => Err(LedgerError::AccountNotFound),
        }
    }

    /// The transactions of account `id`, oldest first.
    pub open spec fn history(self, id: AccountId) -> Seq<TransactionEntry> {
        entries_for(self.log, id)
    }

    /// Whether an account `id` with `opening` balance can be created.
    pub open spec fn create_check(self, id: AccountId, opening: i64) -> Result<(), LedgerError> {
        if opening_result(opening, self.account(id) is Some) is Err {
            opening_result(opening, self.account(id) is Some)
        } else if self.clock == u64::MAX {
            Err(LedgerError::StoreUnavailable)
        } else {
            Ok(())
        }
    }

    /// The ledger after account `id` was opened.
    pub open spec fn opened(self, owner: String, id: AccountId, opening: i64) -> LedgerView {
        LedgerView {
            docs: self.docs.push(
                Account { id, owner, balance: opening, created_at: self.clock, version: self.clock },
            ),
            log: self.log,
            clock: (self.clock + 1) as u64,
        }
    }

    /// Whether the balance of `id` may be set to `new_balance` by a writer
    /// that read it at `expected_version`.
    pub open spec fn update_check(self, id: AccountId, expected_version: u64, new_balance: i64) -> Result<(), LedgerError> {
        match self.account(id) {
            None => Err(LedgerError::AccountNotFound),
            Some(a) => if new_balance < 0 {
                Err(LedgerError::InvalidAmount)
            } else if a.version != expected_version {
                Err(LedgerError::StaleWrite)
            } else if self.clock == u64::MAX {
                Err(LedgerError::StoreUnavailable)
            } else {
                Ok(())
            },
        }
    }

    /// The ledger after a new version of the document of `id` with
    /// `new_balance` was written.
    pub open spec fn with_balance(self, id: AccountId, new_balance: i64) -> LedgerView {
        let a = self.account(id).unwrap();
        LedgerView {
            docs: self.docs.push(
                Account {
                    id: a.id,
                    owner: a.owner,
                    balance: new_balance,
                    created_at: a.created_at,
                    version: self.clock,
                },
            ),
            log: self.log,
            clock: (self.clock + 1) as u64,
        }
    }

    /// The ledger after an entry was appended to the log.
    pub open spec fn with_entry(self, id: AccountId, kind: EntryKind, amount: i64, resulting: i64) -> LedgerView {
        LedgerView {
            docs: self.docs,
            log: self.log.push(
                TransactionEntry {
                    account: id,
                    kind,
                    amount,
                    resulting_balance: resulting,
                    recorded_at: self.clock,
                },
            ),
            clock: (self.clock + 1) as u64,
        }
    }

    /// The result of a deposit or withdrawal of `amount` on account `id`.
    pub open spec fn transfer_check(self, id: AccountId, kind: EntryKind, amount: i64) -> Result<i64, LedgerError> {
        match planned(kind, amount, self.read(id)) {
            Err(e) => Err(e),
            Ok(w) => if self.clock >= u64::MAX - 1 {
                Err(LedgerError::StoreUnavailable)
            } else {
                Ok(w.new_balance)
            },
        }
    }

    /// The ledger after an accepted deposit or withdrawal: the new balance and
    /// the entry that records it.
    pub open spec fn recorded(self, id: AccountId, kind: EntryKind, amount: i64, new_balance: i64) -> LedgerView {
        self.with_balance(id, new_balance).with_entry(id, kind, amount, new_balance)
    }
}

pub proof fn lemma_latest_push(docs: Seq<Account>, d: Account, id: AccountId)
    ensures
        latest(docs.push(d), id) == (if d.id == id { Some(d) } else { latest(docs, id) }),
{
    assert(docs.push(d).drop_last() =~= docs);
}

pub proof fn lemma_entries_push(log: Seq<TransactionEntry>, e: TransactionEntry, id: AccountId)
    ensures
        entries_for(log.push(e), id) == (if e.account == id {
            entries_for(log, id).push(e)
        } else {
            entries_for(log, id)
        }),
{
    assert(log.push(e).drop_last() =~= log);
}

/// Writing a new version of an existing account with a non-negative balance
/// keeps the ledger well formed, and that version becomes the current one.
pub proof fn lemma_with_balance(v: LedgerView, id: AccountId, new_balance: i64)
    requires
        v.wf(),
        v.account(id) is Some,
        new_balance >= 0,
        v.clock < u64::MAX,
    ensures
        v.with_balance(id, new_balance).wf(),
        v.with_balance(id, new_balance).account(id) == Some(
            Account {
                balance: new_balance,
                version: v.clock,
                ..v.account(id).unwrap()
            },
        ),
        v.with_balance(id, new_balance).log == v.log,
{
    let w = v.with_balance(id, new_balance);
    let a = v.account(id).unwrap();
    let d = Account {
        id: a.id,
        owner: a.owner,
        balance: new_balance,
        created_at: a.created_at,
        version: v.clock,
    };
    lemma_latest_push(v.docs, d, id);
    assert(a.id == id) by {
        lemma_latest_id(v.docs, id);
    }
    assert forall|i: int| 0 <= i < w.log.len() implies latest(
        w.docs,
        #[trigger] w.log[i].account,
    ) is Some by {
        assert(latest(v.docs, v.log[i].account) is Some);
        lemma_latest_push(v.docs, d, w.log[i].account);
    }
    assert forall|i: int| 0 <= i < w.docs.len() implies #[trigger] w.docs[i].balance >= 0
        && w.docs[i].version < w.clock by {
        if i < v.docs.len() {
            assert(w.docs[i] == v.docs[i]);
        }
    }
}

/// The latest document of `id`, when there is one, carries that identity.
pub proof fn lemma_latest_id(docs: Seq<Account>, id: AccountId)
    ensures
        latest(docs, id) matches Some(a) ==> a.id == id,
    decreases docs.len(),
{
    if docs.len() > 0 && docs.last().id != id {
        lemma_latest_id(docs.drop_last(), id);
    }
}

/// Appending an entry for an existing account, with a positive amount and a
/// non-negative resulting balance, keeps the ledger well formed.
pub proof fn lemma_with_entry(v: LedgerView, id: AccountId, kind: EntryKind, amount: i64, resulting: i64)
    requires
        v.wf(),
        v.account(id) is Some,
        amount > 0,
        resulting >= 0,
        v.clock < u64::MAX,
    ensures
        v.with_entry(id, kind, amount, resulting).wf(),
        v.with_entry(id, kind, amount, resulting).docs == v.docs,
{
    let w = v.with_entry(id, kind, amount, resulting);
    assert forall|i: int| 0 <= i < w.log.len() implies #[trigger] w.log[i].amount > 0
        && w.log[i].resulting_balance >= 0 && w.log[i].recorded_at < w.clock && latest(
        w.docs,
        w.log[i].account,
    ) is Some by {
        if i < v.log.len() {
            assert(w.log[i] == v.log[i]);
        }
    }
    assert forall|i: int, j: int| 0 <= i < j < w.log.len() implies #[trigger] w.log[i].recorded_at
        < #[trigger] w.log[j].recorded_at by {
        assert(w.log[i] == v.log[i]);
        if j < v.log.len() {
            assert(w.log[j] == v.log[j]);
        }
    }
    assert forall|i: int| 0 <= i < w.docs.len() implies #[trigger] w.docs[i].balance >= 0
        && w.docs[i].version < w.clock by {
        assert(w.docs[i] == v.docs[i]);
    }
}

/// The latest document of `id` is one of the documents.
pub proof fn lemma_latest_in(docs: Seq<Account>, id: AccountId)
    ensures
        latest(docs, id) matches Some(a) ==> exists|i: int| 0 <= i < docs.len() && docs[i] == a,
    decreases docs.len(),
{
    if docs.len() > 0 {
        if docs.last().id == id {
            assert(docs[docs.len() - 1] == docs.last());
        } else {
            lemma_latest_in(docs.drop_last(), id);
            if latest(docs.drop_last(), id) is Some {
                let k = choose|k: int| 0 <= k < docs.drop_last().len() && docs.drop_last()[k] == latest(docs.drop_last(), id).unwrap();
                assert(docs[k] == docs.drop_last()[k]);
            }
        }
    }
}

/// In a well-formed ledger the current state of an account carries its
/// identity, a non-negative balance and a version before the clock.
pub proof fn lemma_account_wf(v: LedgerView, id: AccountId)
    requires
        v.wf(),
    ensures
        v.account(id) matches Some(a) ==> a.id == id && a.balance >= 0 && a.version < v.clock,
{
    lemma_latest_id(v.docs, id);
    lemma_latest_in(v.docs, id);
    if v.account(id) is Some {
        let k = choose|k: int| 0 <= k < v.docs.len() && v.docs[k] == v.account(id).unwrap();
        assert(v.docs[k].balance >= 0);
    }
}

/// Whether the entries are in strictly increasing time order.
pub open spec fn time_ordered(entries: Seq<TransactionEntry>) -> bool {
    forall|i: int, j: int|
        0 <= i < j < entries.len() ==> #[trigger] entries[i].recorded_at
            < #[trigger] entries[j].recorded_at
}

/// The entries of one account keep the time order of the log they come
/// from, and each of them is an entry of that log.
pub proof fn lemma_entries_ordered(log: Seq<TransactionEntry>, id: AccountId)
    requires
        time_ordered(log),
    ensures
        time_ordered(entries_for(log, id)),
        forall|k: int|
            0 <= k < entries_for(log, id).len() ==> exists|m: int|
                0 <= m < log.len() && log[m] == #[trigger] entries_for(log, id)[k],
    decreases log.len(),
{
    if log.len() > 0 {
        let p = log.drop_last();
        assert forall|i: int, j: int| 0 <= i < j < p.len() implies #[trigger] p[i].recorded_at
            < #[trigger] p[j].recorded_at by {
            assert(p[i] == log[i] && p[j] == log[j]);
        }
        lemma_entries_ordered(p, id);
        let ep = entries_for(p, id);
        let e = entries_for(log, id);
        assert forall|k: int| 0 <= k < e.len() implies exists|m: int|
            0 <= m < log.len() && log[m] == #[trigger] e[k] by {
            if k < ep.len() {
                assert(e[k] == ep[k]);
                let m = choose|m: int| 0 <= m < p.len() && p[m] == ep[k];
                assert(log[m] == p[m]);
            } else {
                assert(log[log.len() - 1] == e[k]);
            }
        }
        assert forall|i: int, j: int| 0 <= i < j < e.len() implies #[trigger] e[i].recorded_at
            < #[trigger] e[j].recorded_at by {
            assert(e[i] == ep[i]);
            if j < ep.len() {
                assert(e[j] == ep[j]);
            } else {
                let m = choose|m: int| 0 <= m < p.len() && p[m] == ep[i];
                assert(log[m] == p[m]);
                assert(e[j] == log[log.len() - 1]);
            }
        }
    }
}

/// An append-only document store holding the accounts and their transaction
/// log. Each write receives the next logical timestamp; an account document
/// is never overwritten, a new version is written instead.
pub struct Ledger {
    docs: Vec<Account>,
    log: Vec<TransactionEntry>,
    clock: u64,
}

impl View for Ledger {
    type V = LedgerView;

    closed spec fn view(&self) -> LedgerView {
        LedgerView { docs: self.docs@, log: self.log@, clock: self.clock }
    }
}

impl Ledger {
    /// An empty ledger.
    pub fn new() -> (r: Ledger)
        ensures
            r@.wf(),
            r@.docs == Seq::<Account>::empty(),
            r@.log == Seq::<TransactionEntry>::empty(),
            r@.clock == 0,
    {
        Ledger { docs: Vec::new(), log: Vec::new(), clock: 0 }
    }

    /// The position of the latest version of the document of `id`.
    fn locate(&self, id: AccountId) -> (r: Option<usize>)
        ensures
            match r {
                Some(k) => k < self@.docs.len() && self@.account(id) == Some(self@.docs[k as int]),
                None => self@.account(id) is None,
            },
    {
        let mut found: Option<usize> = None;
        let mut i: usize = 0;
        while i < self.docs.len()
            invariant
                i <= self.docs@.len(),
                match found {
                    Some(k) => k < i && latest(self.docs@.subrange(0, i as int), id) == Some(
                        self.docs@[k as int],
                    ),
                    None => latest(self.docs@.subrange(0, i as int), id) is None,
                },
            decreases self.docs@.len() - i,
        {
            assert(self.docs@.subrange(0, i + 1) =~= self.docs@.subrange(0, i as int).push(
                self.docs@[i as int],
            ));
            proof {
                lemma_latest_push(self.docs@.subrange(0, i as int), self.docs@[i as int], id);
            }
            if self.docs[i].id == id {
                found = Some(i);
            }
            i += 1;
        }
        assert(self.docs@.subrange(0, self.docs@.len() as int) =~= self.docs@);
        found
    }

    /// The current state of the account, that is the latest version of its
    /// document.
    pub fn find(&self, number: u32, secondary: u32) -> (r: Result<&Account, LedgerError>)
        ensures
            match r {
                Ok(a) => self@.account(id_of(number, secondary)) == Some(*a),
                Err(e) => e == LedgerError::AccountNotFound && self@.account(
                    id_of(number, secondary),
                ) is None,
            },
    {
        match self.locate(AccountId { number, secondary }) {
            Some(k) => Ok(&self.docs[k]),
            None => Err(LedgerError::AccountNotFound),
        }
    }

    /// Opens an account for `owner` with an opening balance, and returns a
    /// confirmation naming the owner and the identity.
    pub fn create(&mut self, owner: String, number: u32, secondary: u32, opening_balance: i64) -> (r: Result<String, LedgerError>)
        requires
            old(self)@.wf(),
        ensures
            final(self)@.wf(),
            match old(self)@.create_check(id_of(number, secondary), opening_balance) {
                Err(e) => r == Err::<String, LedgerError>(e) && final(self)@ == old(self)@,
                Ok(()) => r matches Ok(s) && s@ == confirmation(owner@, id_of(number, secondary))
                    && final(self)@ == old(self)@.opened(owner, id_of(number, secondary), opening_balance),
            },
    {
        let id = AccountId { number, secondary };
        let exists = self.locate(id).is_some();
        opening_check(opening_balance, exists)?;
        if self.clock == u64::MAX {
            return Err(LedgerError::StoreUnavailable);
        }
        let text = confirmation_text(owner.as_str(), id);
        let ghost before = self@;
        let doc = Account {
            id,
            owner,
            balance: opening_balance,
            created_at: self.clock,
            version: self.clock,
        };
        self.docs.push(doc);
        self.clock = self.clock + 1;
        proof {
            assert(self@ == before.opened(doc.owner, id, opening_balance));
            assert forall|i: int| 0 <= i < self@.log.len() implies latest(
                self@.docs,
                #[trigger] self@.log[i].account,
            ) is Some by {
                assert(latest(before.docs, before.log[i].account) is Some);
                lemma_latest_push(before.docs, doc, self@.log[i].account);
            }
        }
        Ok(text)
    }

    /// The current balance and version of the account, as the balance engine
    /// reads them.
    pub fn snapshot(&self, number: u32, secondary: u32) -> (r: Result<Snapshot, LedgerError>)
        ensures
            r == self@.read(id_of(number, secondary)),
    {
        match self.locate(AccountId { number, secondary }) {
            Some(k) => Ok(Snapshot { balance: self.docs[k].balance, version: self.docs[k].version }),
            None => Err(LedgerError::AccountNotFound),
        }
    }

    /// Writes a new version of the account's document with `new_balance`,
    /// provided the account is still at `expected_version`; earlier versions
    /// are kept.
    pub fn update_balance(&mut self, number: u32, secondary: u32, expected_version: u64, new_balance: i64) -> (r: Result<(), LedgerError>)
        requires
            old(self)@.wf(),
        ensures
            final(self)@.wf(),
            r == old(self)@.update_check(id_of(number, secondary), expected_version, new_balance),
            r is Ok ==> final(self)@ == old(self)@.with_balance(id_of(number, secondary), new_balance),
            r is Err ==> final(self)@ == old(self)@,
    {
        let id = AccountId { number, secondary };
        let k = match self.locate(id) {
            Some(k) => k,
            None => return Err(LedgerError::AccountNotFound),
        };
        if new_balance < 0 {
            return Err(LedgerError::InvalidAmount);
        }
        if self.docs[k].version != expected_version {
            return Err(LedgerError::StaleWrite);
        }
        if self.clock == u64::MAX {
            return Err(LedgerError::StoreUnavailable);
        }
        let ghost before = self@;
        let doc = Account {
            id: self.docs[k].id,
            owner: self.docs[k].owner.clone(),
            balance: new_balance,
            created_at: self.docs[k].created_at,
            version: self.clock,
        };
        self.docs.push(doc);
        self.clock = self.clock + 1;
        proof {
            lemma_with_balance(before, id, new_balance);
            assert(self@.docs =~= before.with_balance(id, new_balance).docs);
        }
        Ok(())
    }

    /// Appends an entry for account `id` to the transaction log.
    fn append(&mut self, id: AccountId, kind: EntryKind, amount: i64, resulting: i64)
        requires
            old(self)@.wf(),
            old(self)@.account(id) is Some,
            amount > 0,
            resulting >= 0,
            old(self)@.clock < u64::MAX,
        ensures
            final(self)@ == old(self)@.with_entry(id, kind, amount, resulting),
            final(self)@.wf(),
    {
        let ghost before = self@;
        self.log.push(
            TransactionEntry {
                account: id,
                kind,
                amount,
                resulting_balance: resulting,
                recorded_at: self.clock,
            },
        );
        self.clock = self.clock + 1;
        proof {
            lemma_with_entry(before, id, kind, amount, resulting);
        }
    }

    /// Reads the account, validates the operation against its balance, and
    /// writes the new balance together with the entry that records it.
    fn transfer(&mut self, number: u32, secondary: u32, kind: EntryKind, amount: i64) -> (r: Result<i64, LedgerError>)
        requires
            old(self)@.wf(),
        ensures
            final(self)@.wf(),
            r == old(self)@.transfer_check(id_of(number, secondary), kind, amount),
            r matches Ok(b) ==> final(self)@ == old(self)@.recorded(id_of(number, secondary), kind, amount, b),
            r is Err ==> final(self)@ == old(self)@,
    {
        let id = AccountId { number, secondary };
        let read = self.snapshot(number, secondary);
        let w = match plan(kind, amount, read) {
            Ok(w) => w,
            Err(e) => return Err(e),
        };
        if self.clock >= u64::MAX - 1 {
            return Err(LedgerError::StoreUnavailable);
        }
        let ghost before = self@;
        match self.update_balance(number, secondary, w.expected_version, w.new_balance) {
            Ok(()) => {},
            Err(e) => return Err(e),
        }
        proof {
            lemma_with_balance(before, id, w.new_balance);
        }
        self.append(id, kind, amount, w.new_balance);
        Ok(w.new_balance)
    }

    /// Adds `amount` to the account's balance and records the deposit;
    /// returns the new balance.
    pub fn deposit(&mut self, number: u32, secondary: u32, amount: i64) -> (r: Result<i64, LedgerError>)
        requires
            old(self)@.wf(),
        ensures
            final(self)@.wf(),
            r == old(self)@.transfer_check(id_of(number, secondary), EntryKind::Deposit, amount),
            r matches Ok(b) ==> final(self)@ == old(self)@.recorded(
                id_of(number, secondary),
                EntryKind::Deposit,
                amount,
                b,
            ),
            r is Err ==> final(self)@ == old(self)@,
    {
        self.transfer(number, secondary, EntryKind::Deposit, amount)
    }

    /// Takes `amount` from the account's balance, unless that would overdraw
    /// it, and records the withdrawal; returns the new balance.
    pub fn withdraw(&mut self, number: u32, secondary: u32, amount: i64) -> (r: Result<i64, LedgerError>)
        requires
            old(self)@.wf(),
        ensures
            final(self)@.wf(),
            r == old(self)@.transfer_check(id_of(number, secondary), EntryKind::Withdrawal, amount),
            r matches Ok(b) ==> final(self)@ == old(self)@.recorded(
                id_of(number, secondary),
                EntryKind::Withdrawal,
                amount,
                b,
            ),
            r is Err ==> final(self)@ == old(self)@,
    {
        self.transfer(number, secondary, EntryKind::Withdrawal, amount)
    }

    /// The account's transactions, oldest first; empty when it has none.
    pub fn history(&self, number: u32, secondary: u32) -> (r: Result<Vec<TransactionEntry>, LedgerError>)
        requires
            self@.wf(),
        ensures
            match r {
                Ok(v) => self@.account(id_of(number, secondary)) is Some && v@ == self@.history(
                    id_of(number, secondary),
                ) && time_ordered(v@),
                Err(e) => e == LedgerError::AccountNotFound && self@.account(
                    id_of(number, secondary),
                ) is None,
            },
    {
        let id = AccountId { number, secondary };
        if self.locate(id).is_none() {
            return Err(LedgerError::AccountNotFound);
        }
        let mut out: Vec<TransactionEntry> = Vec::new();
        let mut i: usize = 0;
        while i < self.log.len()
            invariant
                i <= self.log@.len(),
                out@ == entries_for(self.log@.subrange(0, i as int), id),
            decreases self.log@.len() - i,
        {
            assert(self.log@.subrange(0, i + 1) =~= self.log@.subrange(0, i as int).push(
                self.log@[i as int],
            ));
            proof {
                lemma_entries_push(self.log@.subrange(0, i as int), self.log@[i as int], id);
            }
            if self.log[i].account == id {
                out.push(self.log[i]);
            }
            i += 1;
        }
        assert(self.log@.subrange(0, self.log@.len() as int) =~= self.log@);
        proof {
            lemma_entries_ordered(self.log@, id);
        }
        Ok(out)
    }

    /// The account's statement: one rendered line per transaction, oldest
    /// first.
    pub fn statement(&self, number: u32, secondary: u32) -> (r: Result<Vec<String>, LedgerError>)
        requires
            self@.wf(),
        ensures
            match r {
                Ok(lines) => self@.account(id_of(number, secondary)) is Some && texts(lines@)
                    == statement_text(self@.history(id_of(number, secondary))),
                Err(e) => e == LedgerError::AccountNotFound && self@.account(
                    id_of(number, secondary),
                ) is None,
            },
    {
        let entries = self.history(number, secondary)?;
        Ok(render_statement(&entries))
    }
}

/// Whether an account may be opened with `opening_balance`, given whether
/// an account with its identity already exists.
pub open spec fn opening_result(opening_balance: i64, exists: bool) -> Result<(), LedgerError> {
    if opening_balance < 0 {
        Err(LedgerError::InvalidAmount)
    } else if exists {
        Err(LedgerError::DuplicateAccount)
    } else {
        Ok(())
    }
}

/// Validates the opening of an account: the balance must not be negative,
/// and the identity must be new.
pub fn opening_check(opening_balance: i64, exists: bool) -> (r: Result<(), LedgerError>)
    ensures
        r == opening_result(opening_balance, exists),
{
    if opening_balance < 0 {
        Err(LedgerError::InvalidAmount)
    } else if exists {
        Err(LedgerError::DuplicateAccount)
    } else {
        Ok(())
    }
}

/// Renders the confirmation of an opened account.
pub fn confirmation_text(owner: &str, id: AccountId) -> (r: String)
    ensures
        r@ == confirmation(owner@, id),
{
    let r = String::from_str(owner).concat(" #").concat(render_unsigned(id.number as u64).as_str()).concat(
        "/",
    ).concat(render_unsigned(id.secondary as u64).as_str());
    assert(r@ =~= confirmation(owner@, id));
    r
}

/// Renders one statement line.
pub fn render_line(e: &TransactionEntry) -> (r: String)
    ensures
        r@ == line_text(*e),
{
    let kind = match e.kind {
        EntryKind::Deposit => "Deposit",
        EntryKind::Withdrawal => "Withdrawal",
    };
    let r = String::from_str(kind).concat(" ").concat(render_decimal(e.amount).as_str()).concat(
        " -> balance ",
    ).concat(render_decimal(e.resulting_balance).as_str()).concat(" @ ").concat(
        render_unsigned(e.recorded_at).as_str(),
    );
    assert(r@ =~= line_text(*e));
    r
}

/// Renders a statement of `entries`, one line each, in the same order.
pub fn render_statement(entries: &Vec<TransactionEntry>) -> (r: Vec<String>)
    ensures
        texts(r@) == statement_text(entries@),
{
    let mut lines: Vec<String> = Vec::new();
    let mut i: usize = 0;
    while i < entries.len()
        invariant
            i <= entries@.len(),
            lines@.len() == i,
            texts(lines@) == statement_text(entries@.subrange(0, i as int)),
        decreases entries@.len() - i,
    {
        let line = render_line(&entries[i]);
        let ghost earlier = lines@;
        lines.push(line);
        assert forall|j: int| 0 <= j <= i implies #[trigger] texts(lines@)[j] == statement_text(
            entries@.subrange(0, i + 1),
        )[j] by {
            if j < i {
                assert(lines@[j] == earlier[j]);
                assert(texts(earlier)[j] == statement_text(entries@.subrange(0, i as int))[j]);
            }
        }
        assert(texts(lines@) =~= statement_text(entries@.subrange(0, i + 1)));
        i += 1;
    }
    assert(entries@.subrange(0, entries@.len() as int) =~= entries@);
    lines
}

} // verus!
