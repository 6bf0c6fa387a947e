use vstd::prelude::*;
use vstd::string::StringExecFns;
use crate::currency::SCALE;

verus! {

pub open spec fn digit_text(d: nat) -> Seq<char> {
    if d == 0 { "0"@ }
    else if d == 1 { "1"@ }
    else if d == 2 { "2"@ }
    else if d == 3 { "3"@ }
    else if d == 4 { "4"@ }
    else if d == 5 { "5"@ }
    else if d == 6 { "6"@ }
    else if d == 7 { "7"@ }
    else if d == 8 { "8"@ }
    else { "9"@ }
}

/// Decimal digits of `n`, without leading zeros.
pub open spec fn decimal_text(n: nat) -> Seq<char>
    decreases n,
{
    if n < 10 {
        digit_text(n)
    } else {
        decimal_text(n / 10) + digit_text(n % 10)
    }
}

/// The five decimals of a fraction `f < SCALE`, with leading zeros.
pub open spec fn fraction_text(f: nat) -> Seq<char> {
    digit_text(f / 10000) + digit_text((f / 1000) % 10) + digit_text((f / 100) % 10)
        + digit_text((f / 10) % 10) + digit_text(f % 10)
}

/// A raw fixed-point amount written with its five decimals, e.g. `100.00000`.
pub open spec fn amount_text(v: int) -> Seq<char> {
    let a = if v < 0 { -v } else { v };
    (if v < 0 { "-"@ } else { Seq::<char>::empty() }) + decimal_text((a / SCALE as int) as nat) + "."@
        + fraction_text((a % SCALE as int) as nat)
}

fn digit_str(d: u64) -> (r: &'static str)
    requires
        d < 10,
    ensures
        r@ == digit_text(d as nat),
{
    if d == 0 { "0" }
    else if d == 1 { "1" }
    else if d == 2 { "2" }
    else if d == 3 { "3" }
    else if d == 4 { "4" }
    else if d == 5 { "5" }
    else if d == 6 { "6" }
    else if d == 7 { "7" }
    else if d == 8 { "8" }
    else { "9" }
}

/// Append the decimal digits of `n`.
pub fn push_decimal(s: &mut String, n: u64)
    ensures
        final(s)@ == old(s)@ + decimal_text(n as nat),
    decreases n,
{
    if n >= 10 {
        push_decimal(s, n / 10);
        s.append(digit_str(n % 10));
        proof {
            assert(final(s)@ =~= old(s)@ + decimal_text(n as nat));
        }
    } else {
        s.append(digit_str(n));
    }
}

/// Append the five decimals of a fraction, with leading zeros.
fn push_fraction(s: &mut String, f: u64)
    requires
        f < SCALE,
    ensures
        final(s)@ == old(s)@ + fraction_text(f as nat),
{
    let ghost s0 = s@;
    s.append(digit_str(f / 10000));
    s.append(digit_str((f / 1000) % 10));
    s.append(digit_str((f / 100) % 10));
    s.append(digit_str((f / 10) % 10));
    s.append(digit_str(f % 10));
    proof {
        assert(s@ =~= s0 + fraction_text(f as nat));
    }
}

/// Append a raw fixed-point amount with its five decimals.
pub fn push_amount(s: &mut String, v: i64)
    ensures
        final(s)@ == old(s)@ + amount_text(v as int),
{
    let a: u64 = if v < 0 { (-(v as i128)) as u64 } else { v as u64 };
    let ghost s0 = s@;
    let ghost sign: Seq<char> = if v < 0 { "-"@ } else { Seq::<char>::empty() };
    if v < 0 {
        s.append("-");
    }
    assert(s@ =~= s0 + sign);
    let whole = a / (SCALE as u64);
    let f = a % (SCALE as u64);
    push_decimal(s, whole);
    s.append(".");
    push_fraction(s, f);
    proof {
        let ai = if v < 0 { -(v as int) } else { v as int };
        assert(a as int == ai);
        assert(whole as nat == (ai / SCALE as int) as nat);
        assert(f as nat == (ai % SCALE as int) as nat);
        assert(s@ =~= s0 + amount_text(v as int));
    }
}

} // verus!
