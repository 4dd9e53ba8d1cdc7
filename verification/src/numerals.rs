//! Integers written out as text, in decimal and in hexadecimal.

use vstd::prelude::*;
use vstd::string::*;

verus! {

/// The character that stands for a digit below sixteen, in lower case.
pub open spec fn digit_char(d: int) -> char {
    if d == 0 {
        '0'
    } else if d == 1 {
        '1'
    } else if d == 2 {
        '2'
    } else if d == 3 {
        '3'
    } else if d == 4 {
        '4'
    } else if d == 5 {
        '5'
    } else if d == 6 {
        '6'
    } else if d == 7 {
        '7'
    } else if d == 8 {
        '8'
    } else if d == 9 {
        '9'
    } else if d == 10 {
        'a'
    } else if d == 11 {
        'b'
    } else if d == 12 {
        'c'
    } else if d == 13 {
        'd'
    } else if d == 14 {
        'e'
    } else {
        'f'
    }
}

/// The decimal digits of a natural number, most significant first, without
/// leading zeros; zero is the single digit `0`.
pub open spec fn decimal_digits(n: nat) -> Seq<char>
    decreases n,
{
    if n < 10 {
        seq![digit_char(n as int)]
    } else {
        decimal_digits(n / 10).push(digit_char((n % 10) as int))
    }
}

/// The hexadecimal digits of a natural number, most significant first, in
/// lower case and without leading zeros.
pub open spec fn hex_digits(n: nat) -> Seq<char>
    decreases n,
{
    if n < 16 {
        seq![digit_char(n as int)]
    } else {
        hex_digits(n / 16).push(digit_char((n % 16) as int))
    }
}

/// A signed integer in decimal: a minus sign before the digits of a negative
/// number.
pub open spec fn decimal_text(i: int) -> Seq<char> {
    if i < 0 {
        seq!['-'] + decimal_digits((-i) as nat)
    } else {
        decimal_digits(i as nat)
    }
}

/// A 64-bit integer in hexadecimal behind the prefix `0x`. A negative number
/// is written as the unsigned number with the same 64 bits.
pub open spec fn hex_text(i: int) -> Seq<char> {
    if i < 0 {
        seq!['0', 'x'] + hex_digits((i + 0x1_0000_0000_0000_0000) as nat)
    } else {
        seq!['0', 'x'] + hex_digits(i as nat)
    }
}

/// The one-character string of a digit.
fn digit_str(d: u64) -> (s: &'static str)
    requires
        d < 16,
    ensures
        s@ == seq![digit_char(d as int)],
{
    proof {
        reveal_strlit("0");
        reveal_strlit("1");
        reveal_strlit("2");
        reveal_strlit("3");
        reveal_strlit("4");
        reveal_strlit("5");
        reveal_strlit("6");
        reveal_strlit("7");
        reveal_strlit("8");
        reveal_strlit("9");
        reveal_strlit("a");
        reveal_strlit("b");
        reveal_strlit("c");
        reveal_strlit("d");
        reveal_strlit("e");
        reveal_strlit("f");
    }
    let s = if d == 0 {
        "0"
    } else if d == 1 {
        "1"
    } else if d == 2 {
        "2"
    } else if d == 3 {
        "3"
    } else if d == 4 {
        "4"
    } else if d == 5 {
        "5"
    } else if d == 6 {
        "6"
    } else if d == 7 {
        "7"
    } else if d == 8 {
        "8"
    } else if d == 9 {
        "9"
    } else if d == 10 {
        "a"
    } else if d == 11 {
        "b"
    } else if d == 12 {
        "c"
    } else if d == 13 {
        "d"
    } else if d == 14 {
        "e"
    } else {
        "f"
    };
    assert(s@ =~= seq![digit_char(d as int)]);
    s
}

/// Appends the decimal digits of `n` to `out`.
pub fn push_decimal(out: &mut String, n: u64)
    ensures
        final(out)@ == old(out)@ + decimal_digits(n as nat),
    decreases n,
{
    if n >= 10 {
        push_decimal(out, n / 10);
    }
    out.append(digit_str(n % 10));
    assert(out@ =~= old(out)@ + decimal_digits(n as nat));
}

/// Appends the hexadecimal digits of `n` to `out`.
pub fn push_hex(out: &mut String, n: u64)
    ensures
        final(out)@ == old(out)@ + hex_digits(n as nat),
    decreases n,
{
    if n >= 16 {
        push_hex(out, n / 16);
    }
    out.append(digit_str(n % 16));
    assert(out@ =~= old(out)@ + hex_digits(n as nat));
}

/// An unsigned integer in decimal.
pub fn decimal_u64(n: u64) -> (r: String)
    ensures
        r@ == decimal_text(n as int),
{
    let mut out = String::new();
    push_decimal(&mut out, n);
    assert(out@ =~= decimal_text(n as int));
    out
}

/// A signed integer in decimal.
pub fn decimal_i64(i: i64) -> (r: String)
    ensures
        r@ == decimal_text(i as int),
{
    if i >= 0 {
        decimal_u64(i as u64)
    } else {
        proof {
            reveal_strlit("-");
        }
        let mut out = String::from_str("-");
        // The magnitude of the least `i64` does not fit in an `i64`.
        let magnitude: u64 = ((-(i + 1)) as u64) + 1;
        push_decimal(&mut out, magnitude);
        assert(out@ =~= decimal_text(i as int));
        out
    }
}

/// An unsigned integer in hexadecimal, behind `0x`.
pub fn hex_u64(n: u64) -> (r: String)
    ensures
        r@ == hex_text(n as int),
{
    proof {
        reveal_strlit("0x");
    }
    let mut out = String::from_str("0x");
    push_hex(&mut out, n);
    assert(out@ =~= hex_text(n as int));
    out
}

/// A signed integer in hexadecimal, behind `0x`: the digits are those of the
/// unsigned integer with the same bits.
pub fn hex_i64(i: i64) -> (r: String)
    ensures
        r@ == hex_text(i as int),
{
    if i >= 0 {
        hex_u64(i as u64)
    } else {
        proof {
            reveal_strlit("0x");
        }
        let mut out = String::from_str("0x");
        let low: u64 = (i - i64::MIN) as u64;
        let bits: u64 = low + 0x8000_0000_0000_0000u64;
        push_hex(&mut out, bits);
        assert(out@ =~= hex_text(i as int));
        out
    }
}

} // verus!
