//! Whole numbers written in decimal at the start of a text.
//!
//! The catalogue writes its numbers as text, and not always cleanly: a year
//! may be followed by other characters, a count may be missing. A text
//! stands for the number that it starts with: an optional sign, then
//! digits, up to the first byte that is no digit.

use vstd::prelude::*;

verus! {

/// The byte that writes the digit `0`.
pub const DIGIT_ZERO: u8 = 48;

/// The byte that writes the digit `9`.
pub const DIGIT_NINE: u8 = 57;

/// The byte that writes `+`.
pub const PLUS: u8 = 43;

/// The byte that writes `-`.
pub const MINUS: u8 = 45;

/// Whether `byte` is one of the ASCII digits `0` to `9`.
pub open spec fn is_digit(byte: u8) -> bool {
    DIGIT_ZERO <= byte <= DIGIT_NINE
}

/// Whether `text` starts with `+` or `-`.
pub open spec fn has_sign(text: Seq<u8>) -> bool {
    text.len() > 0 && (text[0] == PLUS || text[0] == MINUS)
}

/// How many digits stand at the start of `text`.
pub open spec fn leading_digits(text: Seq<u8>) -> nat
    decreases text.len(),
{
    if text.len() > 0 && is_digit(text[0]) {
        1 + leading_digits(text.skip(1))
    } else {
        0
    }
}

/// The number that `digits` write, read as decimal digits.
pub open spec fn digits_value(digits: Seq<u8>) -> nat
    decreases digits.len(),
{
    if digits.len() == 0 {
        0
    } else {
        digits_value(digits.drop_last()) * 10 + (digits.last() - DIGIT_ZERO) as nat
    }
}

/// The whole number that `text` starts with: a sign, if there is one, and
/// the digits behind it. A sign without digits writes zero. `None` where
/// `text` starts with neither a sign nor a digit.
pub open spec fn leading_number(text: Seq<u8>) -> Option<int> {
    let start: int = if has_sign(text) { 1 } else { 0 };
    let count = leading_digits(text.skip(start));
    let magnitude = digits_value(text.subrange(start, start + count));
    if start + count == 0 {
        None
    } else if has_sign(text) && text[0] == MINUS {
        Some(-magnitude)
    } else {
        Some(magnitude as int)
    }
}

/// An integer type that can be read from decimal text.
pub trait Number: Sized {
    /// The number that `text` starts with, where this type can hold it.
    spec fn parsed(text: Seq<u8>) -> Option<Self>;

    /// The number that `text` holds where it starts with none, or with one
    /// that this type cannot hold.
    spec fn fallback() -> Self;

    /// Reads the number that `text` starts with.
    fn parse(text: &[u8]) -> (number: Option<Self>)
        ensures
            number == Self::parsed(text@),
    ;

    /// Zero, the value of a field whose text is no number.
    fn zero() -> (number: Self)
        ensures
            number == Self::fallback(),
    ;
}

impl Number for i32 {
    open spec fn parsed(text: Seq<u8>) -> Option<i32> {
        match leading_number(text) {
            Some(n) if i32::MIN <= n <= i32::MAX => Some(n as i32),
            _ => None,
        }
    }

    open spec fn fallback() -> i32 {
        0
    }

    fn parse(text: &[u8]) -> (number: Option<i32>) {
        atoi_i32(text)
    }

    fn zero() -> (number: i32) {
        0
    }
}

impl Number for i64 {
    open spec fn parsed(text: Seq<u8>) -> Option<i64> {
        match leading_number(text) {
            Some(n) if i64::MIN <= n <= i64::MAX => Some(n as i64),
            _ => None,
        }
    }

    open spec fn fallback() -> i64 {
        0
    }

    fn parse(text: &[u8]) -> (number: Option<i64>) {
        atoi_i64(text)
    }

    fn zero() -> (number: i64) {
        0
    }
}

/// `atoi::atoi::<i32>`: skips one leading `+` or `-`, reads digits up to the
/// first byte that is no digit, and returns their value with the sign.
/// `None` where the text starts with neither a sign nor a digit, and where
/// the value does not fit in an `i32`.
#[verifier::external_body]
fn atoi_i32(text: &[u8]) -> (number: Option<i32>)
    ensures
        number == match leading_number(text@) {
            Some(n) if i32::MIN <= n <= i32::MAX => Some(n as i32),
            _ => None,
        },
{
    atoi::atoi::<i32>(text)
}

/// `atoi::atoi::<i64>`: skips one leading `+` or `-`, reads digits up to the
/// first byte that is no digit, and returns their value with the sign.
/// `None` where the text starts with neither a sign nor a digit, and where
/// the value does not fit in an `i64`.
#[verifier::external_body]
fn atoi_i64(text: &[u8]) -> (number: Option<i64>)
    ensures
        number == match leading_number(text@) {
            Some(n) if i64::MIN <= n <= i64::MAX => Some(n as i64),
            _ => None,
        },
{
    atoi::atoi::<i64>(text)
}

/// Whether every byte of `text` is a digit.
pub open spec fn all_digits(text: Seq<u8>) -> bool {
    forall|i: int| 0 <= i < text.len() ==> is_digit(#[trigger] text[i])
}

/// A text that starts with neither a sign nor a digit holds no number, for
/// any type: the empty text, a word, a number behind a blank.
pub proof fn lemma_no_number(text: Seq<u8>)
    requires
        text.len() == 0 || !(is_digit(text[0]) || text[0] == PLUS || text[0] == MINUS),
    ensures
        leading_number(text).is_none(),
        <i32 as Number>::parsed(text).is_none(),
        <i64 as Number>::parsed(text).is_none(),
{
    assert(text.skip(0) =~= text);
}

/// The digits at the start of a text are counted up to the first byte that
/// is no digit.
pub proof fn lemma_leading_digits(digits: Seq<u8>, rest: Seq<u8>)
    requires
        all_digits(digits),
        rest.len() == 0 || !is_digit(rest[0]),
    ensures
        leading_digits(digits + rest) == digits.len(),
    decreases digits.len(),
{
    let text = digits + rest;
    if digits.len() == 0 {
        assert(text =~= rest);
    } else {
        assert(text[0] == digits[0]);
        assert(text.skip(1) =~= digits.skip(1) + rest);
        assert(all_digits(digits.skip(1))) by {
            assert forall|i: int| 0 <= i < digits.skip(1).len() implies is_digit(
                #[trigger] digits.skip(1)[i],
            ) by {
                assert(digits.skip(1)[i] == digits[i + 1]);
            }
        }
        lemma_leading_digits(digits.skip(1), rest);
    }
}

/// A text holds the number that its digits write, whatever follows them,
/// with the sign that stands in front of them. A sign alone writes zero.
pub proof fn lemma_number_then_rest(digits: Seq<u8>, rest: Seq<u8>)
    requires
        all_digits(digits),
        rest.len() == 0 || !is_digit(rest[0]),
    ensures
        digits.len() > 0 ==> leading_number(digits + rest) == Some(digits_value(digits) as int),
        leading_number(seq![PLUS] + digits + rest) == Some(digits_value(digits) as int),
        leading_number(seq![MINUS] + digits + rest) == Some(-digits_value(digits)),
{
    lemma_leading_digits(digits, rest);
    let plain = digits + rest;
    assert(plain.skip(0) =~= plain);
    assert(plain.subrange(0, digits.len() as int) =~= digits);
    if digits.len() > 0 {
        assert(plain[0] == digits[0]);
    }
    let plus = seq![PLUS] + digits + rest;
    assert(plus[0] == PLUS);
    assert(plus.skip(1) =~= plain);
    assert(plus.subrange(1, 1 + digits.len() as int) =~= digits);
    let minus = seq![MINUS] + digits + rest;
    assert(minus[0] == MINUS);
    assert(minus.skip(1) =~= plain);
    assert(minus.subrange(1, 1 + digits.len() as int) =~= digits);
}

} // verus!
