//! Integers as decimal text.

use crate::text::{ascii_bytes, bytes_are_chars};
use vstd::prelude::*;
use vstd::string::StringExecFns;

verus! {

/// Whether a character is a decimal digit.
pub open spec fn is_digit(c: char) -> bool {
    '0' <= c <= '9'
}

/// Whether a text holds decimal digits only.
pub open spec fn all_digits(text: Seq<char>) -> bool {
    forall|i: int| 0 <= i < text.len() ==> is_digit(#[trigger] text[i])
}

/// The number that a text of decimal digits stands for.
pub open spec fn decimal_value(digits: Seq<char>) -> nat
    decreases digits.len(),
{
    if digits.len() == 0 {
        0
    } else {
        (decimal_value(digits.drop_last()) * 10 + (digits.last() as u8 - 0x30)) as nat
    }
}

/// Whether a text is a number without a sign: one digit at least, and digits
/// only.
pub open spec fn is_number(text: Seq<char>) -> bool {
    text.len() > 0 && all_digits(text)
}

/// The digits of a text that may begin with a plus sign.
pub open spec fn without_plus(text: Seq<char>) -> Seq<char> {
    if text.len() > 0 && text[0] == '+' {
        text.skip(1)
    } else {
        text
    }
}

/// What a text stands for as an unsigned 64-bit integer: its digits, behind
/// an optional plus sign, give a number that fits; else nothing.
pub open spec fn u64_of_text(text: Seq<char>) -> Option<u64> {
    let digits = without_plus(text);
    if is_number(digits) && decimal_value(digits) <= u64::MAX {
        Some(decimal_value(digits) as u64)
    } else {
        None
    }
}

/// What a text stands for as a signed 64-bit integer: its digits, behind an
/// optional plus or minus sign, give a number that fits; else nothing.
pub open spec fn i64_of_text(text: Seq<char>) -> Option<i64> {
    if text.len() > 0 && text[0] == '-' {
        let digits = text.skip(1);
        if is_number(digits) && decimal_value(digits) <= 0x8000_0000_0000_0000 {
            Some((-(decimal_value(digits) as int)) as i64)
        } else {
            None
        }
    } else {
        let digits = without_plus(text);
        if is_number(digits) && decimal_value(digits) <= i64::MAX {
            Some(decimal_value(digits) as i64)
        } else {
            None
        }
    }
}

/// The value of a number grows with every digit that is appended.
pub proof fn lemma_decimal_value_grows(digits: Seq<char>, k: int)
    requires
        0 <= k <= digits.len(),
        all_digits(digits),
    ensures
        decimal_value(digits.take(k)) <= decimal_value(digits),
    decreases digits.len() - k,
{
    if k < digits.len() {
        lemma_decimal_value_grows(digits, k + 1);
        assert(digits.take(k + 1).drop_last() =~= digits.take(k));
        assert(is_digit(digits[k]));
    } else {
        assert(digits.take(k) =~= digits);
    }
}

/// Reads the number that the bytes from `start` on stand for, where it is at
/// most `limit`.
fn parse_digits(bytes: &[u8], start: usize, limit: u64, Ghost(text): Ghost<Seq<char>>) -> (r:
    Option<u64>)
    requires
        bytes_are_chars(bytes@, text),
        start <= bytes.len(),
    ensures
        match r {
            Some(v) => is_number(text.skip(start as int)) && v == decimal_value(
                text.skip(start as int),
            ) && v <= limit,
            None => !(is_number(text.skip(start as int)) && decimal_value(text.skip(start as int))
                <= limit),
        },
{
    let ghost digits = text.skip(start as int);
    if start == bytes.len() {
        return None;
    }
    let mut value: u64 = 0;
    let mut i: usize = start;
    while i < bytes.len()
        invariant
            start <= i <= bytes.len(),
            bytes_are_chars(bytes@, text),
            digits == text.skip(start as int),
            all_digits(digits.take(i - start)),
            value == decimal_value(digits.take(i - start)),
            value <= limit,
        decreases bytes.len() - i,
    {
        let b = bytes[i];
        assert(digits[i - start] == text[i as int]);
        if b < 0x30 || b > 0x39 {
            assert(!is_digit(digits[i - start]));
            return None;
        }
        let d = (b - 0x30) as u64;
        proof {
            assert(digits.take(i + 1 - start).drop_last() =~= digits.take(i - start));
            assert(is_digit(digits[i - start]));
            assert(decimal_value(digits.take(i + 1 - start)) == value * 10 + d);
        }
        if d > limit || value > (limit - d) / 10 {
            proof {
                assert(value * 10 + d > limit);
                if all_digits(digits) {
                    lemma_decimal_value_grows(digits, i + 1 - start);
                }
            }
            return None;
        }
        value = value * 10 + d;
        i += 1;
    }
    assert(digits.take(i - start) =~= digits);
    Some(value)
}

/// Reads an unsigned 64-bit integer from decimal text.
pub fn parse_u64_text(text: &str) -> (r: Option<u64>)
    ensures
        r == u64_of_text(text@),
{
    let bytes = match ascii_bytes(text) {
        Some(bytes) => bytes,
        None => {
            proof {
                lemma_numbers_are_ascii(text@);
            }
            return None;
        },
    };
    let start: usize = if bytes.len() > 0 && bytes[0] == 0x2b {
        1
    } else {
        0
    };
    assert(text@.skip(0) =~= text@);
    parse_digits(bytes, start, u64::MAX, Ghost(text@))
}

/// Reads a signed 64-bit integer from decimal text.
pub fn parse_i64_text(text: &str) -> (r: Option<i64>)
    ensures
        r == i64_of_text(text@),
{
    let bytes = match ascii_bytes(text) {
        Some(bytes) => bytes,
        None => {
            proof {
                lemma_numbers_are_ascii(text@);
            }
            return None;
        },
    };
    assert(text@.skip(0) =~= text@);
    if bytes.len() > 0 && bytes[0] == 0x2d {
        match parse_digits(bytes, 1, 0x8000_0000_0000_0000, Ghost(text@)) {
            Some(v) => {
                if v == 0x8000_0000_0000_0000 {
                    Some(i64::MIN)
                } else {
                    Some(-(v as i64))
                }
            },
            None => None,
        }
    } else {
        let start: usize = if bytes.len() > 0 && bytes[0] == 0x2b {
            1
        } else {
            0
        };
        match parse_digits(bytes, start, 0x7fff_ffff_ffff_ffff, Ghost(text@)) {
            Some(v) => Some(v as i64),
            None => None,
        }
    }
}

/// A text that stands for an integer holds ASCII characters only.
proof fn lemma_numbers_are_ascii(text: Seq<char>)
    requires
        !vstd::utf8::is_ascii_chars(text),
    ensures
        u64_of_text(text) is None,
        i64_of_text(text) is None,
{
    let i = choose|i: int| 0 <= i < text.len() && !('\0' <= #[trigger] text[i] <= '\u{7f}');
    assert(text[i] != '+' && text[i] != '-' && !is_digit(text[i]));
    if i >= 1 {
        assert(text.skip(1)[i - 1] == text[i]);
    }
}

/// The character of a decimal digit.
pub open spec fn digit_char(d: nat) -> char {
    if d == 0 {
        '0'
    } else if d == 1 {
        '1'
    } else if d == 2 {
        '2'
    } else if d == 3 {
        '3'
    } else if d == 4 {
        '4'
    } else if d == 5 {
        '5'
    } else if d == 6 {
        '6'
    } else if d == 7 {
        '7'
    } else if d == 8 {
        '8'
    } else {
        '9'
    }
}

/// A number in decimal: its digits from the most significant on, without
/// leading zeros; `0` is the single digit `0`.
pub open spec fn decimal_text(v: nat) -> Seq<char>
    decreases v,
{
    if v < 10 {
        seq![digit_char(v)]
    } else {
        decimal_text(v / 10).push(digit_char(v % 10))
    }
}

/// A signed number in decimal: a minus sign before the digits of a negative
/// number, no sign before any other.
pub open spec fn signed_decimal_text(v: int) -> Seq<char> {
    if v < 0 {
        seq!['-'] + decimal_text((-v) as nat)
    } else {
        decimal_text(v as nat)
    }
}

/// The decimal text of a number is a number, and stands for that number.
pub proof fn lemma_decimal_text_value(v: nat)
    ensures
        is_number(decimal_text(v)),
        decimal_value(decimal_text(v)) == v,
    decreases v,
{
    let text = decimal_text(v);
    if v < 10 {
        assert(text.drop_last() =~= Seq::<char>::empty());
        assert(text.last() == digit_char(v));
        assert(is_digit(digit_char(v)));
        assert(digit_char(v) as u8 - 0x30 == v);
        assert(decimal_value(text.drop_last()) == 0);
        assert(decimal_value(text) == v);
    } else {
        lemma_decimal_text_value(v / 10);
        assert(text.drop_last() =~= decimal_text(v / 10));
        assert(text.last() == digit_char(v % 10));
        assert(is_digit(digit_char(v % 10)));
        assert(digit_char(v % 10) as u8 - 0x30 == v % 10);
        assert(decimal_value(text) == decimal_value(text.drop_last()) * 10 + v % 10);
        assert forall|i: int| 0 <= i < text.len() implies is_digit(#[trigger] text[i]) by {
            if i < text.len() - 1 {
                assert(text[i] == decimal_text(v / 10)[i]);
            }
        }
    }
}

/// An unsigned 64-bit integer that is written in decimal and read again is
/// the same integer.
pub proof fn lemma_u64_round_trip(v: u64)
    ensures
        u64_of_text(decimal_text(v as nat)) == Some(v),
{
    lemma_decimal_text_value(v as nat);
    let text = decimal_text(v as nat);
    assert(is_digit(text[0]));
}

/// A signed 64-bit integer that is written in decimal and read again is the
/// same integer.
pub proof fn lemma_i64_round_trip(v: i64)
    ensures
        i64_of_text(signed_decimal_text(v as int)) == Some(v),
{
    let text = signed_decimal_text(v as int);
    if v < 0 {
        lemma_decimal_text_value((-v) as nat);
        assert(text.skip(1) =~= decimal_text((-v) as nat));
        assert(text[0] == '-');
    } else {
        lemma_decimal_text_value(v as nat);
        assert(is_digit(text[0]));
    }
}

/// The text of one decimal digit.
fn digit_str(d: u8) -> (s: &'static str)
    requires
        d < 10,
    ensures
        s@ == seq![digit_char(d as nat)],
{
    proof {
        reveal_strlit("0");
        reveal_strlit("1");
        reveal_strlit("2");
        reveal_strlit("3");
        reveal_strlit("4");
        reveal_strlit("5");
        reveal_strlit("6");
        reveal_strlit("7");
        reveal_strlit("8");
        reveal_strlit("9");
    }
    let s = match d {
        0 => "0",
        1 => "1",
        2 => "2",
        3 => "3",
        4 => "4",
        5 => "5",
        6 => "6",
        7 => "7",
        8 => "8",
        _ => "9",
    };
    assert(s@ =~= seq![digit_char(d as nat)]);
    s
}

/// Appends a number in decimal to a text.
pub fn push_decimal(out: &mut String, v: u128)
    ensures
        final(out)@ == old(out)@ + decimal_text(v as nat),
    decreases v,
{
    if v >= 10 {
        push_decimal(out, v / 10);
    }
    out.append(digit_str((v % 10) as u8));
}

/// Writes an unsigned number in decimal.
pub fn decimal_string(v: u128) -> (r: String)
    ensures
        r@ == decimal_text(v as nat),
{
    let mut out = String::new();
    push_decimal(&mut out, v);
    out
}

/// Writes a signed number in decimal.
pub fn signed_decimal_string(v: i64) -> (r: String)
    ensures
        r@ == signed_decimal_text(v as int),
{
    let mut out = String::new();
    if v < 0 {
        proof {
            reveal_strlit("-");
        }
        out.append("-");
        assert(out@ =~= seq!['-']);
        push_decimal(&mut out, (-(v as i128)) as u128);
    } else {
        push_decimal(&mut out, v as u128);
    }
    out
}

} // verus!
