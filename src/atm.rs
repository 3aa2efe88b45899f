use vstd::prelude::*;
use crate::account::{error_text, LedgerError};
use crate::ledger::texts;
use crate::text::{decimal, render_decimal};

verus! {

/// The page the teller machine shows.
#[derive(Debug, Clone, Copy, PartialEq, Eq, Structural)]
pub enum State {
    Login,
    User,
    Menu,
    Cashed,
    NewBalance,
    Statement,
}

impl Default for State {
    fn default() -> (r: State)
        ensures
            r == State::Menu,
    {
        State::Menu
    }
}

/// What the user pressed.
#[derive(Debug, Clone, Copy, PartialEq, Eq, Structural)]
pub enum Message {
    LoginSelected,
    WithdrawSelected,
    DepositSelected,
    StatementSelected,
    CreatingUser,
    UserOk,
}

/// The ledger operation that a message calls for.
#[derive(Debug, Clone, Copy, PartialEq, Eq, Structural)]
pub enum Request {
    Nothing,
    OpenAccount,
    Withdraw,
    Deposit,
    Statement,
}

/// What a ledger operation gave back, to be shown on the next page.
#[derive(Debug)]
pub enum Outcome {
    Opened(Result<String, LedgerError>),
    Balance(Result<i64, LedgerError>),
    Lines(Result<Vec<String>, LedgerError>),
}

/// The page shown after `m`.
pub open spec fn destination_of(m: Message) -> State {
    match m {
        Message::LoginSelected => State::Login,
        Message::UserOk => State::Menu,
        Message::CreatingUser => State::User,
        Message::WithdrawSelected => State::Cashed,
        Message::DepositSelected => State::NewBalance,
        Message::StatementSelected => State::Statement,
    }
}

/// The ledger operation that `m` calls for.
pub open spec fn request_of(m: Message) -> Request {
    match m {
        Message::LoginSelected => Request::Nothing,
        Message::UserOk => Request::Nothing,
        Message::CreatingUser => Request::OpenAccount,
        Message::WithdrawSelected => Request::Withdraw,
        Message::DepositSelected => Request::Deposit,
        Message::StatementSelected => Request::Statement,
    }
}

/// Lines joined by line breaks.
pub open spec fn joined(lines: Seq<Seq<char>>) -> Seq<char>
    decreases lines.len(),
{
    if lines.len() == 0 {
        Seq::empty()
    } else if lines.len() == 1 {
        lines[0]
    } else {
        joined(lines.drop_last()) + "\n"@ + lines.last()
    }
}

/// The text shown for an outcome: the value on success, the failure's
/// description otherwise. A failure is never shown as a value.
pub open spec fn outcome_text(o: Outcome) -> Seq<char> {
    match o {
        Outcome::Opened(Ok(s)) => s@,
        Outcome::Balance(Ok(b)) => decimal(b as int),
        Outcome::Lines(Ok(lines)) => joined(texts(lines@)),
        Outcome::Opened(Err(e)) => error_text(e),
        Outcome::Balance(Err(e)) => error_text(e),
        Outcome::Lines(Err(e)) => error_text(e),
    }
}

impl Message {
    /// The page to show once the message is handled.
    pub fn destination(self) -> (r: State)
        ensures
            r == destination_of(self),
    {
        match self {
            Message::LoginSelected => State::Login,
            Message::UserOk => State::Menu,
            Message::CreatingUser => State::User,
            Message::WithdrawSelected => State::Cashed,
            Message::DepositSelected => State::NewBalance,
            Message::StatementSelected => State::Statement,
        }
    }

    /// The ledger operation to perform for the message.
    pub fn request(self) -> (r: Request)
        ensures
            r == request_of(self),
    {
        match self {
            Message::LoginSelected => Request::Nothing,
            Message::UserOk => Request::Nothing,
            Message::CreatingUser => Request::OpenAccount,
            Message::WithdrawSelected => Request::Withdraw,
            Message::DepositSelected => Request::Deposit,
            Message::StatementSelected => Request::Statement,
        }
    }
}

/// Joins lines with line breaks.
pub fn join_lines(lines: &Vec<String>) -> (r: String)
    ensures
        r@ == joined(texts(lines@)),
{
    let mut out = String::new();
    let mut i: usize = 0;
    while i < lines.len()
        invariant
            i <= lines@.len(),
            out@ == joined(texts(lines@.subrange(0, i as int))),
        decreases lines@.len() - i,
    {
        let ghost prefix = texts(lines@.subrange(0, i + 1));
        assert(prefix.drop_last() =~= texts(lines@.subrange(0, i as int)));
        assert(prefix.last() == lines@[i as int]@);
        if i == 0 {
            out = out.concat(lines[i].as_str());
            assert(out@ =~= joined(prefix));
        } else {
            out = out.concat("\n").concat(lines[i].as_str());
            assert(out@ =~= joined(prefix));
        }
        i += 1;
    }
    assert(lines@.subrange(0, lines@.len() as int) =~= lines@);
    out
}

/// Renders an outcome for display.
pub fn outcome_body(o: &Outcome) -> (r: String)
    ensures
        r@ == outcome_text(*o),
{
    match o {
        Outcome::Opened(Ok(s)) => s.clone(),
        Outcome::Balance(Ok(b)) => render_decimal(*b),
        Outcome::Lines(Ok(lines)) => join_lines(lines),
        Outcome::Opened(Err(e)) => String::from_str(e.describe()),
        Outcome::Balance(Err(e)) => String::from_str(e.describe()),
        Outcome::Lines(Err(e)) => String::from_str(e.describe()),
    }
}

} // verus!
