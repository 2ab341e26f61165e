//! Decimal integers written as text.

use vstd::prelude::*;

verus! {

/// The most that the digits of an `i32` can amount to: the magnitude of
/// `i32::MIN`.
pub const I32_MAGNITUDE_LIMIT: u64 = 2147483648;

/// The most that the digits of an `i64` can amount to: the magnitude of
/// `i64::MIN`.
pub const I64_MAGNITUDE_LIMIT: u64 = 9223372036854775808;

/// Whether a character is one of the ten decimal digits.
pub open spec fn is_digit(c: char) -> bool {
    '0' <= c <= '9'
}

/// Whether every character is a decimal digit.
pub open spec fn all_digits(text: Seq<char>) -> bool {
    forall|i: int| 0 <= i < text.len() ==> is_digit(#[trigger] text[i])
}

/// The number that a decimal digit stands for.
pub open spec fn digit_value(c: char) -> int {
    c as int - '0' as int
}

/// The number that a sequence of decimal digits stands for; zero for the
/// empty sequence.
pub open spec fn digits_value(digits: Seq<char>) -> int
    decreases digits.len(),
{
    if digits.len() == 0 {
        0
    } else {
        digits_value(digits.drop_last()) * 10 + digit_value(digits.last())
    }
}

/// Whether the text starts with a sign.
pub open spec fn has_sign(text: Seq<char>) -> bool {
    text.len() > 0 && (text[0] == '+' || text[0] == '-')
}

/// The text without its sign, if it has one.
pub open spec fn unsigned_part(text: Seq<char>) -> Seq<char> {
    if has_sign(text) {
        text.subrange(1, text.len() as int)
    } else {
        text
    }
}

/// What a text of an optional sign, `+` or `-`, and one or more decimal
/// digits denotes: whether the sign is `-`, and the number that the digits
/// stand for. Any other text denotes nothing.
pub open spec fn sign_and_magnitude(text: Seq<char>) -> Option<(bool, int)> {
    let digits = unsigned_part(text);
    if digits.len() > 0 && all_digits(digits) {
        Some((text[0] == '-', digits_value(digits)))
    } else {
        None
    }
}

/// The integer that a text denotes: an optional sign, `+` or `-`, followed
/// by one or more decimal digits and nothing else.
pub open spec fn integer_of_text(text: Seq<char>) -> Option<int> {
    match sign_and_magnitude(text) {
        Some((negative, magnitude)) => Some(
            if negative {
                -magnitude
            } else {
                magnitude
            },
        ),
        None => None,
    }
}

/// The `i32` that a text denotes, if it denotes an integer of that range.
pub open spec fn i32_of_text(text: Seq<char>) -> Option<i32> {
    match integer_of_text(text) {
        Some(value) => if i32::MIN <= value <= i32::MAX {
            Some(value as i32)
        } else {
            None
        },
        None => None,
    }
}

/// The `i64` that a text denotes, if it denotes an integer of that range.
pub open spec fn i64_of_text(text: Seq<char>) -> Option<i64> {
    match integer_of_text(text) {
        Some(value) => if i64::MIN <= value <= i64::MAX {
            Some(value as i64)
        } else {
            None
        },
        None => None,
    }
}

/// The `u32` that a text denotes, if it has no `-` sign and denotes an
/// integer of that range. A text with a `-` sign denotes none, whatever its
/// digits.
pub open spec fn u32_of_text(text: Seq<char>) -> Option<u32> {
    match sign_and_magnitude(text) {
        Some((negative, magnitude)) => if !negative && magnitude <= u32::MAX {
            Some(magnitude as u32)
        } else {
            None
        },
        None => None,
    }
}

/// Reads an optional sign, `+` or `-`, and one or more decimal digits, with
/// nothing before, between or after them. Gives whether the sign is `-` and
/// the number that the digits stand for, where that number is at most
/// `limit`.
pub fn read_decimal(text: &str, limit: u64) -> (read: Option<(bool, u64)>)
    ensures
        match read {
            Some((negative, magnitude)) => {
                &&& sign_and_magnitude(text@) == Some((negative, magnitude as int))
                &&& magnitude <= limit
            },
            None => sign_and_magnitude(text@) matches Some((_, magnitude)) ==> magnitude > limit,
        },
{
    let mut first = true;
    let mut signed = false;
    let mut negative = false;
    let mut valid = true;
    let mut in_range = true;
    let mut any_digit = false;
    let mut magnitude: u64 = 0;
    let ghost mut start: int = 0;
    for c in it: text.chars()
        invariant
            it.seq() == text@,
            first == (it.index() == 0),
            signed ==> has_sign(text@) && it.index() >= 1,
            !first ==> signed == has_sign(text@),
            negative == (signed && text@[0] == '-'),
            start == (if signed { 1int } else { 0int }),
            start <= it.index() || first,
            !first ==> any_digit == (it.index() - start > 0),
            valid ==> all_digits(text@.subrange(start, it.index() as int)) || first,
            !valid ==> exists|i: int| start <= i < it.index() && !is_digit(#[trigger] text@[i]),
            valid && in_range ==> magnitude == digits_value(
                text@.subrange(start, it.index() as int),
            ) || first,
            first ==> magnitude == 0 && valid && in_range && !any_digit && !signed,
            magnitude <= limit,
            valid && !in_range ==> digits_value(text@.subrange(start, it.index() as int)) > limit,
    {
        let ghost index = it.index() as int;
        if first && (c == '+' || c == '-') {
            signed = true;
            negative = c == '-';
            proof {
                start = 1;
                assert(text@.subrange(1, 1) == Seq::<char>::empty());
            }
        } else {
            proof {
                if first {
                    assert(text@.subrange(0, 0) == Seq::<char>::empty());
                }
                assert(text@.subrange(start, index + 1).drop_last() == text@.subrange(
                    start,
                    index,
                ));
                assert(text@.subrange(start, index + 1).last() == c);
            }
            any_digit = true;
            if c >= '0' && c <= '9' {
                if valid && in_range {
                    let digit = (c as u32 - '0' as u32) as u128;
                    let grown = magnitude as u128 * 10 + digit;
                    if grown > limit as u128 {
                        in_range = false;
                    } else {
                        magnitude = grown as u64;
                    }
                } else if valid {
                    proof {
                        assert(digits_value(text@.subrange(start, index + 1)) >= digits_value(
                            text@.subrange(start, index),
                        ) * 10);
                    }
                }
                proof {
                    if valid {
                        let before = text@.subrange(start, index);
                        let after = text@.subrange(start, index + 1);
                        assert forall|i: int| 0 <= i < after.len() implies is_digit(
                            #[trigger] after[i],
                        ) by {
                            if i < before.len() {
                                assert(after[i] == before[i]);
                            }
                        }
                    }
                }
            } else {
                valid = false;
            }
        }
        first = false;
    }
    let ghost rest = unsigned_part(text@);
    proof {
        if first {
            assert(text@.len() == 0);
        } else {
            assert(rest == text@.subrange(start, text@.len() as int));
        }
        if !valid {
            let i = choose|i: int| start <= i < text@.len() && !is_digit(#[trigger] text@[i]);
            assert(rest[i - start] == text@[i]);
        }
    }
    if !valid || !any_digit || !in_range {
        None
    } else {
        Some((negative, magnitude))
    }
}

/// Reads a decimal `i32`: an optional sign, `+` or `-`, then one or more
/// decimal digits, nothing before, between or after them, and a value that
/// an `i32` can hold.
pub fn parse_i32(text: &str) -> (parsed: Option<i32>)
    ensures
        parsed == i32_of_text(text@),
{
    match read_decimal(text, I32_MAGNITUDE_LIMIT) {
        Some((negative, magnitude)) => {
            if negative {
                let value = -(magnitude as i64);
                Some(value as i32)
            } else if magnitude == I32_MAGNITUDE_LIMIT {
                None
            } else {
                Some(magnitude as i32)
            }
        },
        None => None,
    }
}

/// Reads a decimal `i64`: an optional sign, `+` or `-`, then one or more
/// decimal digits, nothing before, between or after them, and a value that
/// an `i64` can hold.
pub fn parse_i64(text: &str) -> (parsed: Option<i64>)
    ensures
        parsed == i64_of_text(text@),
{
    match read_decimal(text, I64_MAGNITUDE_LIMIT) {
        Some((negative, magnitude)) => {
            if magnitude == I64_MAGNITUDE_LIMIT {
                if negative {
                    Some(i64::MIN)
                } else {
                    None
                }
            } else if negative {
                Some(-(magnitude as i64))
            } else {
                Some(magnitude as i64)
            }
        },
        None => None,
    }
}

/// Reads a decimal `u32`: an optional `+`, then one or more decimal digits,
/// nothing before, between or after them, and a value that a `u32` can
/// hold. A `-` sign is not accepted, not even before zero.
pub fn parse_u32(text: &str) -> (parsed: Option<u32>)
    ensures
        parsed == u32_of_text(text@),
{
    match read_decimal(text, 0xffff_ffff) {
        Some((negative, magnitude)) => {
            if negative {
                None
            } else {
                Some(magnitude as u32)
            }
        },
        None => None,
    }
}

/// The character of a decimal digit.
pub open spec fn digit_character(digit: nat) -> char
    recommends
        digit < 10,
{
    if digit == 0 {
        '0'
    } else if digit == 1 {
        '1'
    } else if digit == 2 {
        '2'
    } else if digit == 3 {
        '3'
    } else if digit == 4 {
        '4'
    } else if digit == 5 {
        '5'
    } else if digit == 6 {
        '6'
    } else if digit == 7 {
        '7'
    } else if digit == 8 {
        '8'
    } else {
        '9'
    }
}

/// The decimal digits of a number, the most significant first, without
/// leading zeros; zero is written `0`.
pub open spec fn decimal_digits(number: nat) -> Seq<char>
    decreases number,
{
    if number < 10 {
        seq![digit_character(number)]
    } else {
        decimal_digits(number / 10).push(digit_character(number % 10))
    }
}

/// What is written in decimal is read back as the same number: the decimal
/// digits of a number are digits, at least one, without a sign, and they
/// stand for that number.
pub proof fn lemma_decimal_digits_read_back(number: nat)
    ensures
        decimal_digits(number).len() >= 1,
        all_digits(decimal_digits(number)),
        digits_value(decimal_digits(number)) == number,
        sign_and_magnitude(decimal_digits(number)) == Some((false, number as int)),
    decreases number,
{
    let written = decimal_digits(number);
    if number < 10 {
        assert(written.drop_last() == Seq::<char>::empty());
        assert(digits_value(written.drop_last()) == 0);
        assert(digit_value(written.last()) == number);
    } else {
        lemma_decimal_digits_read_back(number / 10);
        let front = decimal_digits(number / 10);
        assert(written.drop_last() == front);
        assert(digit_value(written.last()) == number % 10);
        assert forall|i: int| 0 <= i < written.len() implies is_digit(#[trigger] written[i]) by {
            if i < front.len() {
                assert(written[i] == front[i]);
            }
        }
    }
    assert(is_digit(written[0]));
    assert(!has_sign(written));
}

/// Reading the decimal text of a `u32` gives the number back.
pub proof fn lemma_u32_of_decimal_digits(number: u32)
    ensures
        u32_of_text(decimal_digits(number as nat)) == Some(number),
{
    lemma_decimal_digits_read_back(number as nat);
}

/// The one-character string of a decimal digit.
fn digit_text(digit: u32) -> (text: &'static str)
    requires
        digit < 10,
    ensures
        text@ == seq![digit_character(digit as nat)],
{
    proof {
        reveal_strlit("0");
        reveal_strlit("1");
        reveal_strlit("2");
        reveal_strlit("3");
        reveal_strlit("4");
        reveal_strlit("5");
        reveal_strlit("6");
        reveal_strlit("7");
        reveal_strlit("8");
        reveal_strlit("9");
    }
    let text = if digit == 0 {
        "0"
    } else if digit == 1 {
        "1"
    } else if digit == 2 {
        "2"
    } else if digit == 3 {
        "3"
    } else if digit == 4 {
        "4"
    } else if digit == 5 {
        "5"
    } else if digit == 6 {
        "6"
    } else if digit == 7 {
        "7"
    } else if digit == 8 {
        "8"
    } else {
        "9"
    };
    assert(text@ =~= seq![digit_character(digit as nat)]);
    text
}

/// Writes a number in decimal, without sign and without leading zeros.
pub fn decimal_text(number: u32) -> (text: String)
    ensures
        text@ == decimal_digits(number as nat),
{
    let mut digits: Vec<u32> = Vec::new();
    let mut rest: u32 = number;
    while rest >= 10
        invariant
            forall|i: int| 0 <= i < digits@.len() ==> (#[trigger] digits@[i]) < 10,
            decimal_digits(number as nat) == decimal_digits(rest as nat) + low_digits(digits@),
        decreases rest,
    {
        proof {
            assert(decimal_digits(rest as nat) == decimal_digits((rest / 10) as nat).push(
                digit_character((rest % 10) as nat),
            ));
            assert(low_digits(digits@.push(rest % 10)) == seq![
                digit_character((rest % 10) as nat),
            ] + low_digits(digits@)) by {
                assert(digits@.push(rest % 10).drop_last() == digits@);
            }
            assert(decimal_digits((rest / 10) as nat).push(digit_character((rest % 10) as nat))
                + low_digits(digits@) == decimal_digits((rest / 10) as nat) + (seq![
                digit_character((rest % 10) as nat),
            ] + low_digits(digits@)));
        }
        digits.push(rest % 10);
        rest = rest / 10;
    }
    let mut text = String::new();
    text.append(digit_text(rest));
    let mut left: usize = digits.len();
    proof {
        assert(text@ == decimal_digits(rest as nat));
        assert(digits@.take(left as int) == digits@);
    }
    while left > 0
        invariant
            left <= digits@.len(),
            forall|i: int| 0 <= i < digits@.len() ==> (#[trigger] digits@[i]) < 10,
            text@ + low_digits(digits@.take(left as int)) == decimal_digits(rest as nat)
                + low_digits(digits@),
        decreases left,
    {
        left = left - 1;
        proof {
            let before = digits@.take(left + 1);
            assert(before.drop_last() == digits@.take(left as int));
            assert(before.last() == digits@[left as int]);
            assert(low_digits(before) == seq![digit_character(digits@[left as int] as nat)]
                + low_digits(digits@.take(left as int)));
            assert((text@ + seq![digit_character(digits@[left as int] as nat)]) + low_digits(
                digits@.take(left as int),
            ) == text@ + low_digits(before));
        }
        text.append(digit_text(digits[left]));
    }
    proof {
        assert(digits@.take(0) == Seq::<u32>::empty());
        assert(text@ + Seq::<char>::empty() == text@);
    }
    text
}

/// The characters of digits that were collected from the least significant
/// to the most significant, read from the most significant.
spec fn low_digits(collected: Seq<u32>) -> Seq<char>
    decreases collected.len(),
{
    if collected.len() == 0 {
        Seq::empty()
    } else {
        seq![digit_character(collected.last() as nat)] + low_digits(collected.drop_last())
    }
}

} // verus!
