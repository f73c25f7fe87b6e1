//! Decimal notation of counts and fixed-point scalars.

use vstd::prelude::*;
use vstd::string::StringExecFns;
use crate::fixed::{Fixed, ONE};

verus! {

/// The character of a decimal digit.
pub open spec fn digit_char(d: int) -> char
    recommends
        0 <= d < 10,
{
    if d == 0 {
        '0'
    } else if d == 1 {
        '1'
    } else if d == 2 {
        '2'
    } else if d == 3 {
        '3'
    } else if d == 4 {
        '4'
    } else if d == 5 {
        '5'
    } else if d == 6 {
        '6'
    } else if d == 7 {
        '7'
    } else if d == 8 {
        '8'
    } else {
        '9'
    }
}

/// The decimal digits of `n`, without leading zeros.
pub open spec fn decimal(n: nat) -> Seq<char>
    decreases n,
{
    if n < 10 {
        seq![digit_char(n as int)]
    } else {
        decimal(n / 10).push(digit_char((n % 10) as int))
    }
}

/// The digits of a fraction given in billionths, `width` digits wide,
/// without trailing zeros; `frac` is not zero and below ten to the `width`.
pub open spec fn fraction_digits(frac: nat, width: nat) -> Seq<char>
    decreases width,
{
    if width == 0 {
        Seq::empty()
    } else if frac % 10 == 0 {
        fraction_digits(frac / 10, (width - 1) as nat)
    } else {
        padded_digits(frac, width)
    }
}

/// The digits of `n`, padded with zeros in front to `width` digits.
pub open spec fn padded_digits(n: nat, width: nat) -> Seq<char>
    decreases width,
{
    if width == 0 {
        Seq::empty()
    } else {
        padded_digits(n / 10, (width - 1) as nat).push(digit_char((n % 10) as int))
    }
}

/// The decimal notation of a fixed-point scalar: a minus sign where it is
/// negative, the whole part, and, where there is one, a point and the
/// fraction without trailing zeros.
pub open spec fn fixed_decimal(value: int) -> Seq<char> {
    let magnitude = if value < 0 {
        -value
    } else {
        value
    };
    let whole = decimal((magnitude / ONE as int) as nat);
    let frac = (magnitude % ONE as int) as nat;
    let unsigned = if frac == 0 {
        whole
    } else {
        whole + seq!['.'] + fraction_digits(frac, 9)
    };
    if value < 0 {
        seq!['-'] + unsigned
    } else {
        unsigned
    }
}

fn digit_str(d: u64) -> (s: &'static str)
    requires
        d < 10,
    ensures
        s@ == seq![digit_char(d as int)],
{
    proof {
        reveal_strlit("0");
        reveal_strlit("1");
        reveal_strlit("2");
        reveal_strlit("3");
        reveal_strlit("4");
        reveal_strlit("5");
        reveal_strlit("6");
        reveal_strlit("7");
        reveal_strlit("8");
        reveal_strlit("9");
    }
    let s: &'static str = if d == 0 {
        "0"
    } else if d == 1 {
        "1"
    } else if d == 2 {
        "2"
    } else if d == 3 {
        "3"
    } else if d == 4 {
        "4"
    } else if d == 5 {
        "5"
    } else if d == 6 {
        "6"
    } else if d == 7 {
        "7"
    } else if d == 8 {
        "8"
    } else {
        "9"
    };
    assert(s@ =~= seq![digit_char(d as int)]);
    s
}

/// Writes `n` in decimal digits behind `out`.
pub fn push_decimal(out: &mut String, n: u64)
    ensures
        final(out)@ == old(out)@ + decimal(n as nat),
    decreases n,
{
    if n >= 10 {
        push_decimal(out, n / 10);
    }
    out.append(digit_str(n % 10));
    proof {
        if n >= 10 {
            assert(final(out)@ =~= old(out)@ + decimal(n as nat));
        } else {
            assert(final(out)@ =~= old(out)@ + decimal(n as nat));
        }
    }
}

fn push_padded(out: &mut String, n: u64, width: u64)
    ensures
        final(out)@ == old(out)@ + padded_digits(n as nat, width as nat),
    decreases width,
{
    if width > 0 {
        push_padded(out, n / 10, width - 1);
        out.append(digit_str(n % 10));
    }
    assert(final(out)@ =~= old(out)@ + padded_digits(n as nat, width as nat));
}

fn push_fraction(out: &mut String, frac: u64, width: u64)
    ensures
        final(out)@ == old(out)@ + fraction_digits(frac as nat, width as nat),
    decreases width,
{
    if width == 0 {
        assert(final(out)@ =~= old(out)@ + fraction_digits(frac as nat, width as nat));
    } else if frac % 10 == 0 {
        push_fraction(out, frac / 10, width - 1);
    } else {
        push_padded(out, frac, width);
    }
}

/// The decimal digits of `n` as a string.
pub fn decimal_string(n: u64) -> (s: String)
    ensures
        s@ == decimal(n as nat),
{
    let mut s = String::new();
    push_decimal(&mut s, n);
    assert(s@ =~= decimal(n as nat));
    s
}

/// Writes a fixed-point scalar in decimal notation behind `out`.
pub fn push_fixed(out: &mut String, value: Fixed)
    ensures
        final(out)@ == old(out)@ + fixed_decimal(value as int),
{
    let negative: bool = value < 0;
    let magnitude: u64 = if negative {
        (-(value as i128)) as u64
    } else {
        value as u64
    };
    if negative {
        proof {
            reveal_strlit("-");
        }
        out.append("-");
    }
    push_decimal(out, magnitude / 1_000_000_000);
    let frac: u64 = magnitude % 1_000_000_000;
    if frac != 0 {
        proof {
            reveal_strlit(".");
        }
        out.append(".");
        push_fraction(out, frac, 9);
    }
    assert(final(out)@ =~= old(out)@ + fixed_decimal(value as int)) by {
        assert("-"@ =~= seq!['-']) by {
            reveal_strlit("-");
        }
        assert("."@ =~= seq!['.']) by {
            reveal_strlit(".");
        }
    }
}

} // verus!
