//! Decimal numbers written in ASCII, as they stand in text fields and file
//! names.

use vstd::prelude::*;
use vstd::slice::slice_subrange;

verus! {

/// The byte `+`.
pub const PLUS: u8 = 0x2B;

/// The byte `-`.
pub const MINUS: u8 = 0x2D;

/// Whether a byte is one of the ASCII digits `0` to `9`.
pub open spec fn is_digit(b: u8) -> bool {
    0x30 <= b <= 0x39
}

/// The number that a digit stands for.
pub open spec fn digit_value(b: u8) -> nat {
    (b - 0x30) as nat
}

/// Whether a text is a decimal numeral: one digit or more, and nothing else.
pub open spec fn is_numeral(text: Seq<u8>) -> bool {
    text.len() > 0 && forall|i: int| 0 <= i < text.len() ==> is_digit(#[trigger] text[i])
}

/// The number that a sequence of digits writes, most significant digit
/// first. Leading zeros do not count.
pub open spec fn decimal_value(digits: Seq<u8>) -> nat
    decreases digits.len(),
{
    if digits.len() == 0 {
        0
    } else {
        10 * decimal_value(digits.drop_last()) + digit_value(digits.last())
    }
}

/// The number that a text writes without a sign or with `+` before it, if it
/// is at most `max`.
pub open spec fn unsigned_of(text: Seq<u8>, max: nat) -> Option<nat> {
    let digits = if text.len() > 0 && text[0] == PLUS {
        text.skip(1)
    } else {
        text
    };
    if is_numeral(digits) && decimal_value(digits) <= max {
        Some(decimal_value(digits))
    } else {
        None
    }
}

/// The number that a text writes with or without a sign before it, if it
/// lies between `-below` and `max`.
pub open spec fn signed_of(text: Seq<u8>, below: nat, max: nat) -> Option<int> {
    if text.len() > 0 && text[0] == MINUS {
        let digits = text.skip(1);
        if is_numeral(digits) && decimal_value(digits) <= below {
            Some(-(decimal_value(digits) as int))
        } else {
            None
        }
    } else {
        match unsigned_of(text, max) {
            Some(value) => Some(value as int),
            None => None,
        }
    }
}

/// The number that a text writes with or without a sign before it, if it
/// fits in 32 bits with its sign.
pub open spec fn i32_of(text: Seq<u8>) -> Option<i32> {
    match signed_of(text, 0x8000_0000, 0x7FFF_FFFF) {
        Some(value) => Some(value as i32),
        None => None,
    }
}

/// A numeral is worth at least as much as any of its beginnings.
pub proof fn lemma_decimal_value_grows(digits: Seq<u8>, k: int)
    requires
        0 <= k <= digits.len(),
        forall|i: int| 0 <= i < digits.len() ==> is_digit(#[trigger] digits[i]),
    ensures
        decimal_value(digits.take(k)) <= decimal_value(digits),
    decreases digits.len(),
{
    if k == digits.len() {
        assert(digits.take(k) =~= digits);
    } else {
        let shorter = digits.drop_last();
        assert(shorter.take(k) =~= digits.take(k));
        lemma_decimal_value_grows(shorter, k);
    }
}

/// Read a text as a numeral worth at most `max`.
pub fn parse_numeral(text: &[u8], max: u64) -> (r: Option<u64>)
    ensures
        r.is_some() == (is_numeral(text@) && decimal_value(text@) <= max),
        r.is_some() ==> r.unwrap() == decimal_value(text@),
{
    let len: usize = text.len();
    if len == 0 {
        return None;
    }
    let mut value: u64 = 0;
    let mut i: usize = 0;
    while i < len
        invariant
            len == text@.len(),
            i <= len,
            forall|j: int| 0 <= j < i ==> is_digit(#[trigger] text@[j]),
            value == decimal_value(text@.take(i as int)),
            value <= max,
        decreases len - i,
    {
        let b: u8 = text[i];
        if b < 0x30 || b > 0x39 {
            return None;
        }
        let next: u128 = (value as u128) * 10 + ((b - 0x30) as u128);
        proof {
            let longer = text@.take(i + 1);
            assert(longer.drop_last() =~= text@.take(i as int));
            assert(next == decimal_value(longer));
            if is_numeral(text@) {
                lemma_decimal_value_grows(text@, i + 1);
            }
        }
        if next > max as u128 {
            return None;
        }
        value = next as u64;
        i += 1;
    }
    assert(text@.take(len as int) =~= text@);
    Some(value)
}

/// Read a text as a number without a sign or with `+` before it, worth at
/// most `max`.
pub fn parse_unsigned(text: &[u8], max: u64) -> (r: Option<u64>)
    ensures
        r.is_some() == unsigned_of(text@, max as nat).is_some(),
        r.is_some() ==> r.unwrap() == unsigned_of(text@, max as nat).unwrap(),
{
    if text.len() > 0 && text[0] == PLUS {
        parse_numeral(slice_subrange(text, 1, text.len()), max)
    } else {
        parse_numeral(text, max)
    }
}

/// Read a text as a number with or without a sign before it that fits in 32
/// bits with its sign.
pub fn parse_i32(text: &[u8]) -> (r: Option<i32>)
    ensures
        r == i32_of(text@),
{
    if text.len() > 0 && text[0] == MINUS {
        match parse_numeral(slice_subrange(text, 1, text.len()), 0x8000_0000) {
            Some(value) => Some((0 - value as i64) as i32),
            None => None,
        }
    } else {
        match parse_unsigned(text, 0x7FFF_FFFF) {
            Some(value) => Some(value as i32),
            None => None,
        }
    }
}

} // verus!
