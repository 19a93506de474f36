//! Decimal text of integers, as it appears in operands.

use vstd::prelude::*;

verus! {

/// The character that stands for the decimal digit `d`.
pub open spec fn digit_char(d: nat) -> char
    recommends
        d < 10,
{
    if d == 0 {
        '0'
    } else if d == 1 {
        '1'
    } else if d == 2 {
        '2'
    } else if d == 3 {
        '3'
    } else if d == 4 {
        '4'
    } else if d == 5 {
        '5'
    } else if d == 6 {
        '6'
    } else if d == 7 {
        '7'
    } else if d == 8 {
        '8'
    } else {
        '9'
    }
}

/// The decimal numeral of a natural number: most significant digit first, no
/// leading zero, and the single digit `0` for zero.
pub open spec fn decimal_digits(n: nat) -> Seq<char>
    decreases n,
{
    if n < 10 {
        seq![digit_char(n)]
    } else {
        decimal_digits(n / 10).push(digit_char(n % 10))
    }
}

/// The decimal text of an integer: a minus sign in front of the numeral of the
/// magnitude when the integer is negative, the bare numeral otherwise.
pub open spec fn decimal_text(v: int) -> Seq<char> {
    if v < 0 {
        seq!['-'] + decimal_digits((-v) as nat)
    } else {
        decimal_digits(v as nat)
    }
}

/// Every character of a numeral is one of the ten digits.
pub proof fn lemma_decimal_digits_are_digits(n: nat, i: int)
    requires
        0 <= i < decimal_digits(n).len(),
    ensures
        '0' <= decimal_digits(n)[i] <= '9',
    decreases n,
{
    if n >= 10 && i < decimal_digits(n / 10).len() {
        lemma_decimal_digits_are_digits(n / 10, i);
    }
}

/// The one-character text of a decimal digit.
fn digit_text(d: u32) -> (text: &'static str)
    requires
        d < 10,
    ensures
        text@ == seq![digit_char(d as nat)],
{
    proof {
        reveal_strlit("0");
        reveal_strlit("1");
        reveal_strlit("2");
        reveal_strlit("3");
        reveal_strlit("4");
        reveal_strlit("5");
        reveal_strlit("6");
        reveal_strlit("7");
        reveal_strlit("8");
        reveal_strlit("9");
    }
    let text: &'static str = match d {
        0 => "0",
        1 => "1",
        2 => "2",
        3 => "3",
        4 => "4",
        5 => "5",
        6 => "6",
        7 => "7",
        8 => "8",
        _ => "9",
    };
    text
}

/// Appends the decimal numeral of `n` to `out`.
pub fn append_unsigned(out: &mut String, n: u32)
    ensures
        final(out)@ == old(out)@ + decimal_digits(n as nat),
    decreases n,
{
    if n >= 10 {
        append_unsigned(out, n / 10);
    }
    out.append(digit_text(n % 10));
}

/// Appends the decimal text of `v` to `out`, with a minus sign in front of a
/// negative value.
pub fn append_signed(out: &mut String, v: i32)
    ensures
        final(out)@ == old(out)@ + decimal_text(v as int),
{
    if v < 0 {
        proof {
            reveal_strlit("-");
        }
        out.append("-");
        let magnitude: i64 = -(v as i64);
        append_unsigned(out, magnitude as u32);
    } else {
        append_unsigned(out, v as u32);
    }
}

} // verus!
