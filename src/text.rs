use vstd::prelude::*;

verus! {

/// The character for a single decimal digit.
pub open spec fn digit_char(d: nat) -> char {
    if d == 0 { '0' }
    else if d == 1 { '1' }
    else if d == 2 { '2' }
    else if d == 3 { '3' }
    else if d == 4 { '4' }
    else if d == 5 { '5' }
    else if d == 6 { '6' }
    else if d == 7 { '7' }
    else if d == 8 { '8' }
    else { '9' }
}

/// The decimal digits of `n`, most significant first, without leading zeros.
pub open spec fn digits(n: nat) -> Seq<char>
    decreases n,
{
    if n < 10 {
        seq![digit_char(n)]
    } else {
        digits(n / 10) + seq![digit_char(n % 10)]
    }
}

/// The decimal text of an integer, with a leading `-` when it is negative.
pub open spec fn decimal(n: int) -> Seq<char> {
    if n < 0 {
        seq!['-'] + digits((-n) as nat)
    } else {
        digits(n as nat)
    }
}

fn digit_text(d: u64) -> (r: &'static str)
    requires
        d < 10,
    ensures
        r@ == seq![digit_char(d as nat)],
{
    proof {
        reveal_strlit("0");
        reveal_strlit("1");
        reveal_strlit("2");
        reveal_strlit("3");
        reveal_strlit("4");
        reveal_strlit("5");
        reveal_strlit("6");
        reveal_strlit("7");
        reveal_strlit("8");
        reveal_strlit("9");
    }
    if d == 0 { "0" }
    else if d == 1 { "1" }
    else if d == 2 { "2" }
    else if d == 3 { "3" }
    else if d == 4 { "4" }
    else if d == 5 { "5" }
    else if d == 6 { "6" }
    else if d == 7 { "7" }
    else if d == 8 { "8" }
    else { "9" }
}

/// Writes `n` in decimal.
pub fn render_unsigned(n: u64) -> (r: String)
    ensures
        r@ == digits(n as nat),
{
    let mut acc = String::new();
    let mut m: u64 = n;
    loop
        invariant
            digits(n as nat) == digits(m as nat) + acc@,
        decreases m,
    {
        let d = digit_text(m % 10);
        let next = String::from_str(d).concat(acc.as_str());
        if m < 10 {
            assert(next@ =~= digits(m as nat) + acc@);
            return next;
        }
        assert(digits(m as nat) == digits((m / 10) as nat) + seq![digit_char((m % 10) as nat)]);
        assert(digits(m as nat) + acc@ =~= digits((m / 10) as nat) + next@);
        acc = next;
        m = m / 10;
    }
}

/// Writes `n` in decimal.
pub fn render_decimal(n: i64) -> (r: String)
    ensures
        r@ == decimal(n as int),
{
    if n < 0 {
        let magnitude: u64 = ((-(n + 1)) as u64) + 1;
        let body = render_unsigned(magnitude);
        proof {
            reveal_strlit("-");
        }
        let r = String::from_str("-").concat(body.as_str());
        assert(r@ =~= decimal(n as int));
        r
    } else {
        render_unsigned(n as u64)
    }
}

} // verus!
