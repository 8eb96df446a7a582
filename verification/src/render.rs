//! Rendering fixed-point amounts for the summary report: the integer
//! part in decimal, then a point and exactly four decimal places.

use vstd::prelude::*;

verus! {

/// The decimal digit character for `d`.
pub open spec fn spec_digit(d: int) -> char {
    if d == 0 {
        '0'
    } else if d == 1 {
        '1'
    } else if d == 2 {
        '2'
    } else if d == 3 {
        '3'
    } else if d == 4 {
        '4'
    } else if d == 5 {
        '5'
    } else if d == 6 {
        '6'
    } else if d == 7 {
        '7'
    } else if d == 8 {
        '8'
    } else {
        '9'
    }
}

/// The usual decimal rendering of `n`, most significant digit first,
/// without leading zeroes (a lone zero for zero).
pub open spec fn spec_decimal(n: nat) -> Seq<char>
    decreases n,
{
    if n < 10 {
        seq![spec_digit(n as int)]
    } else {
        spec_decimal(n / 10) + seq![spec_digit((n % 10) as int)]
    }
}

/// The four decimal places of a fixed-point amount, zero-padded.
pub open spec fn spec_frac4(frac: nat) -> Seq<char> {
    seq![
        spec_digit(((frac / 1000) % 10) as int),
        spec_digit(((frac / 100) % 10) as int),
        spec_digit(((frac / 10) % 10) as int),
        spec_digit((frac % 10) as int),
    ]
}

/// A fixed-point amount rendered with four decimal places: the integer
/// part, a point, and the zero-padded fraction.
pub open spec fn spec_amount_text(units: nat) -> Seq<char> {
    spec_decimal(units / 10000) + seq!['.'] + spec_frac4(units % 10000)
}

fn digit_str(d: u64) -> (r: &'static str)
    requires
        d < 10,
    ensures
        r@ =~= seq![spec_digit(d as int)],
{
    proof {
        reveal_strlit("0");
        reveal_strlit("1");
        reveal_strlit("2");
        reveal_strlit("3");
        reveal_strlit("4");
        reveal_strlit("5");
        reveal_strlit("6");
        reveal_strlit("7");
        reveal_strlit("8");
        reveal_strlit("9");
    }
    match d {
        0 => "0",
        1 => "1",
        2 => "2",
        3 => "3",
        4 => "4",
        5 => "5",
        6 => "6",
        7 => "7",
        8 => "8",
        _ => "9",
    }
}

fn push_decimal(out: &mut String, n: u64)
    ensures
        final(out)@ == old(out)@ + spec_decimal(n as nat),
    decreases n,
{
    if n < 10 {
        out.append(digit_str(n));
    } else {
        push_decimal(out, n / 10);
        out.append(digit_str(n % 10));
        proof {
            assert(final(out)@ =~= old(out)@ + spec_decimal(n as nat));
        }
    }
}

/// Renders a fixed-point amount with its four decimal places, as the
/// summary report shows balances.
pub fn amount_text(units: u64) -> (r: String)
    ensures
        r@ == spec_amount_text(units as nat),
{
    let mut out = String::new();
    push_decimal(&mut out, units / 10000);
    out.append(".");
    let frac = units % 10000;
    out.append(digit_str(frac / 1000));
    out.append(digit_str((frac / 100) % 10));
    out.append(digit_str((frac / 10) % 10));
    out.append(digit_str(frac % 10));
    proof {
        reveal_strlit(".");
        assert(out@ =~= spec_amount_text(units as nat));
    }
    out
}

} // verus!
