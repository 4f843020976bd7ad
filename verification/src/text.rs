//! Decimal rendering of the numeric profile attributes: plain base-10 text
//! for ages, and fixed-point text with two decimal places for heights and
//! weights stored in hundredths of a unit.

use vstd::prelude::*;

verus! {

/// The decimal digit character for `d`.
pub open spec fn digit_char(d: int) -> char {
    if d == 0 {
        '0'
    } else if d == 1 {
        '1'
    } else if d == 2 {
        '2'
    } else if d == 3 {
        '3'
    } else if d == 4 {
        '4'
    } else if d == 5 {
        '5'
    } else if d == 6 {
        '6'
    } else if d == 7 {
        '7'
    } else if d == 8 {
        '8'
    } else {
        '9'
    }
}

/// The base-10 text of `n`, most significant digit first, no leading zeros
/// except for zero itself.
pub open spec fn dec_spec(n: nat) -> Seq<char>
    decreases n,
{
    if n < 10 {
        seq![digit_char(n as int)]
    } else {
        dec_spec(n / 10).push(digit_char((n % 10) as int))
    }
}

/// The text of `x` hundredths as a fixed-point number with exactly two
/// decimal places: integer part, a dot, then two digits.
pub open spec fn centi_spec(x: u32) -> Seq<char> {
    dec_spec((x / 100) as nat) + seq!['.', digit_char(((x / 10) % 10) as int), digit_char(
        (x % 10) as int,
    )]
}

/// The one-character string for the decimal digit `d`.
pub fn digit_str(d: u32) -> (s: &'static str)
    requires
        d < 10,
    ensures
        s@ == seq![digit_char(d as int)],
{
    proof {
        reveal_strlit("0");
        reveal_strlit("1");
        reveal_strlit("2");
        reveal_strlit("3");
        reveal_strlit("4");
        reveal_strlit("5");
        reveal_strlit("6");
        reveal_strlit("7");
        reveal_strlit("8");
        reveal_strlit("9");
        assert("0"@ =~= seq![digit_char(0)]);
        assert("1"@ =~= seq![digit_char(1)]);
        assert("2"@ =~= seq![digit_char(2)]);
        assert("3"@ =~= seq![digit_char(3)]);
        assert("4"@ =~= seq![digit_char(4)]);
        assert("5"@ =~= seq![digit_char(5)]);
        assert("6"@ =~= seq![digit_char(6)]);
        assert("7"@ =~= seq![digit_char(7)]);
        assert("8"@ =~= seq![digit_char(8)]);
        assert("9"@ =~= seq![digit_char(9)]);
    }
    match d {
        0 => "0",
        1 => "1",
        2 => "2",
        3 => "3",
        4 => "4",
        5 => "5",
        6 => "6",
        7 => "7",
        8 => "8",
        _ => "9",
    }
}

/// Appends the base-10 text of `n` to `buf`.
pub fn push_dec(buf: &mut String, n: u32)
    ensures
        final(buf)@ == old(buf)@ + dec_spec(n as nat),
    decreases n,
{
    if n < 10 {
        buf.append(digit_str(n));
    } else {
        push_dec(buf, n / 10);
        buf.append(digit_str(n % 10));
        proof {
            assert(old(buf)@ + dec_spec((n / 10) as nat) + seq![
                digit_char((n % 10) as int),
            ] =~= old(buf)@ + dec_spec(n as nat));
        }
    }
}

/// Appends the fixed-point text of `x` hundredths, with two decimal places,
/// to `buf`.
pub fn push_centi(buf: &mut String, x: u32)
    ensures
        final(buf)@ == old(buf)@ + centi_spec(x),
{
    push_dec(buf, x / 100);
    buf.append(".");
    buf.append(digit_str((x / 10) % 10));
    buf.append(digit_str(x % 10));
    proof {
        reveal_strlit(".");
        assert("."@ =~= seq!['.']);
        assert(old(buf)@ + dec_spec((x / 100) as nat) + seq!['.'] + seq![
            digit_char(((x / 10) % 10) as int),
        ] + seq![digit_char((x % 10) as int)] =~= old(buf)@ + centi_spec(x));
    }
}

/// The base-10 text of `n` as a fresh string.
pub fn dec_string(n: u32) -> (s: String)
    ensures
        s@ == dec_spec(n as nat),
{
    let mut buf = String::new();
    push_dec(&mut buf, n);
    proof {
        assert(Seq::<char>::empty() + dec_spec(n as nat) =~= dec_spec(n as nat));
    }
    buf
}

/// The fixed-point text of `x` hundredths as a fresh string.
pub fn centi_string(x: u32) -> (s: String)
    ensures
        s@ == centi_spec(x),
{
    let mut buf = String::new();
    push_centi(&mut buf, x);
    proof {
        assert(Seq::<char>::empty() + centi_spec(x) =~= centi_spec(x));
    }
    buf
}

} // verus!
