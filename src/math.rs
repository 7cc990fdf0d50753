use vstd::prelude::*;
use vstd::arithmetic::div_mod::{lemma_fundamental_div_mod, lemma_fundamental_div_mod_converse};

verus! {

/// Largest amount or value the ledger holds: a hundredfold of it still fits
/// in an `i128`, so every percentage below is computed without overflow.
pub const MAX_AMOUNT: i128 = 1701411834604692317316873037158841057;

/// Seconds in a day.
pub const SECONDS_PER_DAY: u64 = 86400;

/// Loss of `value` against the locked `amount`, in whole percent rounded
/// down; a gain gives a negative loss, and a non-positive amount gives 0.
pub open spec fn loss_percent_spec(amount: int, value: int) -> int {
    if amount > 0 {
        ((amount - value) * 100) / amount
    } else {
        0
    }
}

/// Drawdown: the loss percentage, clamped at 0 when there is no loss or no
/// locked amount.
pub open spec fn drawdown_spec(amount: int, value: int) -> int {
    if amount <= 0 || value >= amount {
        0
    } else {
        ((amount - value) * 100) / amount
    }
}

/// Penalty withheld on an early exit: `pct` percent of `value`, rounded down.
pub open spec fn penalty_spec(value: int, pct: int) -> int {
    (value * pct) / 100
}

/// Deadline of a term of `days` days starting at `now`, when it fits in u64.
pub open spec fn expiration_spec(now: int, days: int) -> Option<u64> {
    if now + days * 86400 <= u64::MAX {
        Some((now + days * 86400) as u64)
    } else {
        None
    }
}

pub fn loss_percent(amount: i128, value: i128) -> (r: i128)
    requires
        amount <= MAX_AMOUNT,
        0 <= value <= MAX_AMOUNT,
    ensures
        r == loss_percent_spec(amount as int, value as int),
        amount > 0 ==> r <= 100,
{
    if amount <= 0 {
        return 0;
    }
    if value <= amount {
        let d: i128 = amount - value;
        proof {
            let a = amount as int;
            let di = d as int;
            assert(0 <= di * 100 <= a * 100) by (nonlinear_arith)
                requires 0 <= di <= a;
            lemma_fundamental_div_mod(di * 100, a);
            assert((di * 100) / a <= 100) by (nonlinear_arith)
                requires a * ((di * 100) / a) + (di * 100) % a == di * 100, (di * 100) % a >= 0, di * 100 <= a * 100, a > 0;
        }
        (d * 100) / amount
    } else {
        let g: i128 = value - amount;
        let x: i128 = g * 100;
        let q: i128 = (x - 1) / amount;
        proof {
            let a = amount as int;
            let xi = x as int;
            let qi = q as int;
            let r = (xi - 1) % a;
            lemma_fundamental_div_mod(xi - 1, a);
            assert(xi - 1 == a * qi + r);
            assert(-xi == (-qi - 1) * a + (a - r - 1)) by (nonlinear_arith)
                requires xi - 1 == a * qi + r;
            lemma_fundamental_div_mod_converse(-xi, a, -qi - 1, a - r - 1);
            assert((a - value) * 100 == -xi);
        }
        -q - 1
    }
}

pub fn drawdown_percent(amount: i128, value: i128) -> (r: i128)
    requires
        amount <= MAX_AMOUNT,
        0 <= value <= MAX_AMOUNT,
    ensures
        r == drawdown_spec(amount as int, value as int),
        0 <= r <= 100,
{
    if amount <= 0 || value >= amount {
        0
    } else {
        loss_percent(amount, value)
    }
}

pub fn penalty_amount(value: i128, pct: u32) -> (r: i128)
    requires
        0 <= value <= MAX_AMOUNT,
        pct <= 100,
    ensures
        r == penalty_spec(value as int, pct as int),
        0 <= r <= value,
{
    proof {
        assert(0 <= value * pct <= value * 100) by (nonlinear_arith)
            requires 0 <= value, 0 <= pct <= 100;
    }
    let r = (value * (pct as i128)) / 100;
    proof {
        lemma_fundamental_div_mod((value * pct) as int, 100);
    }
    r
}

pub fn checked_expiration(now: u64, days: u32) -> (r: Option<u64>)
    ensures
        r == expiration_spec(now as int, days as int),
{
    let secs: u64 = (days as u64) * SECONDS_PER_DAY;
    now.checked_add(secs)
}

pub open spec fn digit_char(d: int) -> char {
    if d == 0 { '0' }
    else if d == 1 { '1' }
    else if d == 2 { '2' }
    else if d == 3 { '3' }
    else if d == 4 { '4' }
    else if d == 5 { '5' }
    else if d == 6 { '6' }
    else if d == 7 { '7' }
    else if d == 8 { '8' }
    else { '9' }
}

/// Decimal digits of `n`, most significant first, without leading zeros.
pub open spec fn decimal(n: nat) -> Seq<char>
    decreases n,
{
    if n < 10 {
        seq![digit_char(n as int)]
    } else {
        decimal(n / 10) + seq![digit_char((n % 10) as int)]
    }
}

fn digit_str(d: u64) -> (r: &'static str)
    requires
        d < 10,
    ensures
        r@ == seq![digit_char(d as int)],
{
    proof {
        reveal_strlit("0");
        reveal_strlit("1");
        reveal_strlit("2");
        reveal_strlit("3");
        reveal_strlit("4");
        reveal_strlit("5");
        reveal_strlit("6");
        reveal_strlit("7");
        reveal_strlit("8");
        reveal_strlit("9");
    }
    match d {
        0 => "0",
        1 => "1",
        2 => "2",
        3 => "3",
        4 => "4",
        5 => "5",
        6 => "6",
        7 => "7",
        8 => "8",
        _ => "9",
    }
}

/// Appends the decimal form of `n` to `s`.
pub fn append_decimal(s: &mut String, n: u64)
    ensures
        final(s)@ == old(s)@ + decimal(n as nat),
    decreases n,
{
    if n >= 10 {
        append_decimal(s, n / 10);
    }
    s.append(digit_str(n % 10));
    proof {
        if n >= 10 {
            assert(final(s)@ =~= old(s)@ + decimal(n as nat));
        } else {
            assert(final(s)@ =~= old(s)@ + decimal(n as nat));
        }
    }
}

} // verus!
