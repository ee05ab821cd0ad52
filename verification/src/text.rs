//! Building text: comparing strings, writing numbers in decimal, replacing
//! characters.

use vstd::prelude::*;

verus! {

/// The characters of an optional string.
pub open spec fn opt_chars(s: Option<String>) -> Option<Seq<char>> {
    match s {
        Some(s) => Some(s@),
        None => None,
    }
}

/// Whether two strings hold the same characters.
pub(crate) fn same_text(a: &str, b: &str) -> (same: bool)
    ensures
        same == (a@ == b@),
{
    String::from_str(a).eq(&String::from_str(b))
}

/// The quotient of `a` by a positive `b`, rounded towards zero, as the
/// machine divides.
pub open spec fn trunc_div(a: int, b: int) -> int {
    if a >= 0 {
        a / b
    } else {
        -((-a) / b)
    }
}

/// The remainder that `trunc_div` leaves: it has the sign of `a`.
pub open spec fn trunc_rem(a: int, b: int) -> int {
    if a >= 0 {
        a % b
    } else {
        -((-a) % b)
    }
}

/// The parts joined, with `separator` between each two.
pub open spec fn joined(parts: Seq<Seq<char>>, separator: Seq<char>) -> Seq<char>
    decreases parts.len(),
{
    if parts.len() == 0 {
        Seq::empty()
    } else if parts.len() == 1 {
        parts[0]
    } else {
        joined(parts.drop_last(), separator) + separator + parts.last()
    }
}

/// The decimal digit for `d`.
pub open spec fn digit(d: int) -> char {
    if d == 0 {
        '0'
    } else if d == 1 {
        '1'
    } else if d == 2 {
        '2'
    } else if d == 3 {
        '3'
    } else if d == 4 {
        '4'
    } else if d == 5 {
        '5'
    } else if d == 6 {
        '6'
    } else if d == 7 {
        '7'
    } else if d == 8 {
        '8'
    } else {
        '9'
    }
}

/// A natural number in decimal, without leading zeros.
pub open spec fn decimal_nat(n: nat) -> Seq<char>
    decreases n,
{
    if n < 10 {
        seq![digit(n as int)]
    } else {
        decimal_nat(n / 10).push(digit((n % 10) as int))
    }
}

/// An integer in decimal: a minus sign before the digits of a negative number.
pub open spec fn decimal(n: int) -> Seq<char> {
    if n < 0 {
        seq!['-'] + decimal_nat((-n) as nat)
    } else {
        decimal_nat(n as nat)
    }
}

/// An integer in decimal, filled up with a leading zero to two characters.
pub open spec fn decimal_two_wide(n: int) -> Seq<char> {
    if 0 <= n < 10 {
        seq!['0'] + decimal(n)
    } else {
        decimal(n)
    }
}

/// The text of one decimal digit.
fn digit_text(d: u64) -> (text: &'static str)
    requires
        d < 10,
    ensures
        text@ == seq![digit(d as int)],
{
    proof {
        reveal_strlit("0");
        reveal_strlit("1");
        reveal_strlit("2");
        reveal_strlit("3");
        reveal_strlit("4");
        reveal_strlit("5");
        reveal_strlit("6");
        reveal_strlit("7");
        reveal_strlit("8");
        reveal_strlit("9");
    }
    let text = if d == 0 {
        "0"
    } else if d == 1 {
        "1"
    } else if d == 2 {
        "2"
    } else if d == 3 {
        "3"
    } else if d == 4 {
        "4"
    } else if d == 5 {
        "5"
    } else if d == 6 {
        "6"
    } else if d == 7 {
        "7"
    } else if d == 8 {
        "8"
    } else {
        "9"
    };
    assert(text@ =~= seq![digit(d as int)]);
    text
}

/// Writes a natural number in decimal at the end of `out`.
fn push_decimal_nat(out: &mut String, n: u64)
    ensures
        final(out)@ == old(out)@ + decimal_nat(n as nat),
    decreases n,
{
    if n >= 10 {
        push_decimal_nat(out, n / 10);
    }
    out.append(digit_text(n % 10));
    assert(out@ =~= old(out)@ + decimal_nat(n as nat));
}

/// Writes an integer in decimal at the end of `out`.
pub(crate) fn push_decimal(out: &mut String, n: i64)
    ensures
        final(out)@ == old(out)@ + decimal(n as int),
{
    if n < 0 {
        out.append("-");
        proof {
            reveal_strlit("-");
        }
        let magnitude: u64 = (-(n as i128)) as u64;
        push_decimal_nat(out, magnitude);
        assert(out@ =~= old(out)@ + decimal(n as int));
    } else {
        push_decimal_nat(out, n as u64);
    }
}

/// Writes an integer in decimal at the end of `out`, filled up with a leading
/// zero to two characters.
pub(crate) fn push_decimal_two_wide(out: &mut String, n: i64)
    ensures
        final(out)@ == old(out)@ + decimal_two_wide(n as int),
{
    if 0 <= n && n < 10 {
        out.append("0");
        proof {
            reveal_strlit("0");
        }
        push_decimal(out, n);
        assert(out@ =~= old(out)@ + decimal_two_wide(n as int));
    } else {
        push_decimal(out, n);
    }
}

/// The text in which every `from` is replaced by `to`.
pub open spec fn replaced(text: Seq<char>, from: char, to: char) -> Seq<char> {
    text.map_values(
        |c: char|
            if c == from {
                to
            } else {
                c
            },
    )
}

/// A copy of `text` in which every character `from` is replaced by the one
/// character of `to`.
pub(crate) fn replace_char(text: &str, from: char, to: &str) -> (out: String)
    requires
        to@.len() == 1,
    ensures
        out@ == replaced(text@, from, to@[0]),
{
    let n = text.unicode_len();
    let mut out = String::new();
    let mut i: usize = 0;
    while i < n
        invariant
            n == text@.len(),
            i <= n,
            to@.len() == 1,
            out@ == replaced(text@.take(i as int), from, to@[0]),
        decreases n - i,
    {
        let ghost before = out@;
        if text.get_char(i) == from {
            out.append(to);
            assert(to@ =~= seq![to@[0]]);
        } else {
            out.append(text.substring_char(i, i + 1));
            assert(text@.subrange(i as int, i + 1) =~= seq![text@[i as int]]);
        }
        assert(out@ =~= replaced(text@.take(i + 1), from, to@[0]));
        i += 1;
    }
    assert(text@.take(n as int) =~= text@);
    out
}

} // verus!
