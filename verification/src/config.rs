//! Reading the settings that are checked before the service starts.

use crate::message::decimal;
use crate::message::digit_char;
use vstd::prelude::*;

verus! {

/// Whether `c` is one of the digits `0` to `9`.
pub open spec fn is_digit(c: char) -> bool {
    exists|d: nat| d < 10 && #[trigger] digit_char(d) == c
}

/// The number that the digit `c` stands for.
pub open spec fn digit_value(c: char) -> nat {
    if c == '1' {
        1
    } else if c == '2' {
        2
    } else if c == '3' {
        3
    } else if c == '4' {
        4
    } else if c == '5' {
        5
    } else if c == '6' {
        6
    } else if c == '7' {
        7
    } else if c == '8' {
        8
    } else if c == '9' {
        9
    } else {
        0
    }
}

/// Whether `text` is a numeral: one digit or more and nothing else.
pub open spec fn is_numeral(text: Seq<char>) -> bool {
    text.len() > 0 && forall|i: int| 0 <= i < text.len() ==> is_digit(#[trigger] text[i])
}

/// The number that a numeral stands for, read in base ten.
pub open spec fn numeral_value(text: Seq<char>) -> nat
    decreases text.len(),
{
    if text.len() == 0 {
        0
    } else {
        numeral_value(text.drop_last()) * 10 + digit_value(text.last())
    }
}

/// The digits of a channel id as it is written in the settings: the text
/// itself, without the plus sign that may stand before it.
pub open spec fn channel_id_digits(text: Seq<char>) -> Seq<char> {
    if text.len() > 0 && text[0] == '+' {
        text.drop_first()
    } else {
        text
    }
}

/// The channel id that a text of the settings stands for: the value of its
/// digits where they are a numeral that fits 64 bits, and nothing otherwise.
pub open spec fn channel_id_of(text: Seq<char>) -> Option<u64> {
    let digits = channel_id_digits(text);
    if is_numeral(digits) && numeral_value(digits) <= u64::MAX {
        Some(numeral_value(digits) as u64)
    } else {
        None
    }
}

/// The number of a digit, or `None` for any other character.
fn digit_of(c: char) -> (digit: Option<u64>)
    ensures
        digit is Some <==> is_digit(c),
        digit matches Some(d) ==> d < 10 && d == digit_value(c),
{
    let digit: Option<u64> = if c == '0' {
        Some(0)
    } else if c == '1' {
        Some(1)
    } else if c == '2' {
        Some(2)
    } else if c == '3' {
        Some(3)
    } else if c == '4' {
        Some(4)
    } else if c == '5' {
        Some(5)
    } else if c == '6' {
        Some(6)
    } else if c == '7' {
        Some(7)
    } else if c == '8' {
        Some(8)
    } else if c == '9' {
        Some(9)
    } else {
        None
    };
    proof {
        match digit {
            Some(d) => {
                assert(digit_char(d as nat) == c);
            },
            None => {
                assert forall|d: nat| d < 10 implies #[trigger] digit_char(d) != c by {}
            },
        }
    }
    digit
}

/// A numeral is worth at least as much as any of its beginnings.
proof fn lemma_value_grows(text: Seq<char>, n: int)
    requires
        0 <= n <= text.len(),
    ensures
        numeral_value(text.take(n)) <= numeral_value(text),
    decreases text.len() - n,
{
    if n == text.len() {
        assert(text.take(n) =~= text);
    } else {
        lemma_value_grows(text, n + 1);
        assert(text.take(n + 1).drop_last() =~= text.take(n));
    }
}

/// Reads a channel id from the settings: decimal digits, with or without a
/// plus sign before them. Returns `None` for the empty text, for a text
/// with any other character in it, and for a number that does not fit 64
/// bits.
pub fn parse_channel_id(text: &str) -> (id: Option<u64>)
    ensures
        id == channel_id_of(text@),
{
    let length = text.unicode_len();
    let start: usize = if length > 0 && text.get_char(0) == '+' {
        1
    } else {
        0
    };
    let ghost digits = channel_id_digits(text@);
    assert(digits =~= text@.skip(start as int));
    if start == length {
        return None;
    }
    let mut value: u64 = 0;
    let mut i: usize = start;
    assert(digits.take(0) =~= Seq::<char>::empty());
    while i < length
        invariant
            start <= i <= length,
            length == text@.len(),
            start < length,
            digits == text@.skip(start as int),
            digits == channel_id_digits(text@),
            forall|j: int| 0 <= j < i - start ==> is_digit(#[trigger] digits[j]),
            value == numeral_value(digits.take(i - start)),
        decreases length - i,
    {
        let c = text.get_char(i);
        assert(c == digits[i - start]);
        let ghost seen = digits.take(i - start + 1);
        proof {
            assert(seen.drop_last() =~= digits.take(i - start));
            assert(seen.last() == c);
            lemma_value_grows(digits, i - start + 1);
        }
        match digit_of(c) {
            None => {
                assert(!is_digit(digits[i - start]));
                return None;
            },
            Some(d) => {
                assert(numeral_value(seen) == value * 10 + d);
                if value > (u64::MAX - d) / 10 {
                    assert(numeral_value(digits) > u64::MAX);
                    return None;
                }
                value = value * 10 + d;
            },
        }
        i = i + 1;
    }
    assert(digits.take(i - start) =~= digits);
    Some(value)
}

/// The address that the listener binds to, as one text: the host, a colon
/// and the port.
pub open spec fn bind_target_of(address: Seq<char>, port: Seq<char>) -> Seq<char> {
    address + ":"@ + port
}

/// Joins the host and the port of the settings into the text of a socket
/// address.
pub fn bind_target(address: &str, port: &str) -> (target: String)
    ensures
        target@ == bind_target_of(address@, port@),
{
    let mut target = String::from_str(address);
    target.append(":");
    target.append(port);
    target
}

/// The decimal numeral of a number is a numeral and stands for that number.
pub proof fn lemma_decimal_is_numeral(n: nat)
    ensures
        is_numeral(decimal(n)),
        numeral_value(decimal(n)) == n,
        decimal(n)[0] != '+',
    decreases n,
{
    if n < 10 {
        assert(decimal(n).drop_last() =~= Seq::<char>::empty());
        assert(numeral_value(decimal(n).drop_last()) == 0);
    } else {
        lemma_decimal_is_numeral(n / 10);
        let digits = decimal(n);
        assert(digits.drop_last() =~= decimal(n / 10));
        assert(digits.last() == digit_char(n % 10));
        assert forall|i: int| 0 <= i < digits.len() implies is_digit(#[trigger] digits[i]) by {
            if i < digits.len() - 1 {
                assert(digits[i] == decimal(n / 10)[i]);
            }
        }
    }
}

/// Reading back the numeral that is written for a message or channel number
/// gives that number.
pub proof fn lemma_channel_id_round_trip(n: u64)
    ensures
        channel_id_of(decimal(n as nat)) == Some(n),
{
    lemma_decimal_is_numeral(n as nat);
}

} // verus!
