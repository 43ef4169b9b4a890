//! Decimal text for integers: writing an integer out and reading one back.
//!
//! A numeral is an optional sign (`+` or `-`) followed by one or more of the
//! digits `0` to `9`, and nothing else. [`int_to_text`] writes the shortest
//! numeral of an `i32`; [`text_to_int`] reads any numeral whose value fits an
//! `i32` and rejects every other text.

use vstd::prelude::*;
use vstd::string::StringExecFns;

verus! {

/// Why a text could not be turned into a number.
#[derive(Debug, Clone, Copy, PartialEq, Eq)]
pub enum ConversionError {
    /// The text is not a numeral of the target type: it is empty, holds a
    /// character that is neither a leading sign nor a digit, has no digit at
    /// all, or denotes a value outside the type's range.
    MalformedNumericText,
}

/// Whether `c` is one of the ten decimal digits.
pub open spec fn is_digit(c: char) -> bool {
    '0' <= c <= '9'
}

/// The number from 0 to 9 that the digit `c` stands for.
pub open spec fn digit_value(c: char) -> nat
    recommends
        is_digit(c),
{
    (c as int - '0' as int) as nat
}

/// The digit that stands for `d`, a number from 0 to 9.
pub open spec fn digit_char(d: int) -> char
    recommends
        0 <= d < 10,
{
    seq!['0', '1', '2', '3', '4', '5', '6', '7', '8', '9'][d]
}

/// Whether every character of `text` is a decimal digit.
pub open spec fn all_digits(text: Seq<char>) -> bool {
    forall|i: int| 0 <= i < text.len() ==> is_digit(#[trigger] text[i])
}

/// The number that a run of digits denotes, the most significant digit first.
/// The empty run denotes zero.
pub open spec fn digits_value(digits: Seq<char>) -> nat
    decreases digits.len(),
{
    if digits.len() == 0 {
        0
    } else {
        digits_value(digits.drop_last()) * 10 + digit_value(digits.last())
    }
}

/// The integer that `text` denotes, if `text` is a numeral.
pub open spec fn numeral_value(text: Seq<char>) -> Option<int> {
    if text.len() > 0 && (text[0] == '-' || text[0] == '+') {
        let digits = text.drop_first();
        if digits.len() > 0 && all_digits(digits) {
            if text[0] == '-' {
                Some(-(digits_value(digits) as int))
            } else {
                Some(digits_value(digits) as int)
            }
        } else {
            None
        }
    } else if text.len() > 0 && all_digits(text) {
        Some(digits_value(text) as int)
    } else {
        None
    }
}

/// The `i32` that `text` denotes, if `text` is a numeral within the range of
/// `i32`.
pub open spec fn int_of_text(text: Seq<char>) -> Option<i32> {
    match numeral_value(text) {
        Some(value) => if i32::MIN <= value <= i32::MAX {
            Some(value as i32)
        } else {
            None
        },
        None => None,
    }
}

/// The digits of `n` without leading zeros, the most significant first.
/// Zero has none.
pub open spec fn significant_digits(n: nat) -> Seq<char>
    decreases n,
{
    if n == 0 {
        Seq::empty()
    } else {
        significant_digits(n / 10).push(digit_char((n % 10) as int))
    }
}

/// The shortest run of digits that denotes `n`.
pub open spec fn decimal_digits(n: nat) -> Seq<char> {
    if n == 0 {
        seq!['0']
    } else {
        significant_digits(n)
    }
}

/// The shortest numeral of `n`: a minus sign for a negative number, then the
/// digits of its magnitude.
pub open spec fn decimal_text(n: int) -> Seq<char> {
    if n < 0 {
        seq!['-'] + decimal_digits((-n) as nat)
    } else {
        decimal_digits(n as nat)
    }
}

/// A run of digits denotes at least what any of its beginnings denotes.
pub proof fn lemma_digits_value_grows(digits: Seq<char>, shorter: int)
    requires
        0 <= shorter <= digits.len(),
    ensures
        digits_value(digits.take(shorter)) <= digits_value(digits),
    decreases digits.len(),
{
    if shorter == digits.len() {
        assert(digits.take(shorter) =~= digits);
    } else {
        lemma_digits_value_grows(digits.drop_last(), shorter);
        assert(digits.drop_last().take(shorter) =~= digits.take(shorter));
    }
}

/// The digits written for `n` are digits, and they denote `n`.
pub proof fn lemma_significant_digits(n: nat)
    ensures
        all_digits(significant_digits(n)),
        digits_value(significant_digits(n)) == n,
        n > 0 ==> significant_digits(n).len() > 0,
    decreases n,
{
    if n > 0 {
        let rest = significant_digits(n / 10);
        lemma_significant_digits(n / 10);
        assert(significant_digits(n).drop_last() =~= rest);
        assert forall|i: int| 0 <= i < significant_digits(n).len() implies is_digit(
            #[trigger] significant_digits(n)[i],
        ) by {
            if i < rest.len() {
                assert(significant_digits(n)[i] == rest[i]);
            }
        }
    }
}

/// Writing an integer out and reading the text back gives the integer again.
pub proof fn lemma_text_round_trip(n: int)
    ensures
        numeral_value(decimal_text(n)) == Some(n),
{
    let magnitude = (if n < 0 { -n } else { n }) as nat;
    let digits = decimal_digits(magnitude);
    lemma_significant_digits(magnitude);
    if magnitude == 0 {
        assert(digits.drop_last() =~= Seq::<char>::empty());
    }
    assert(digits.len() > 0 && all_digits(digits) && digits_value(digits) == magnitude);
    if n < 0 {
        assert(decimal_text(n).drop_first() =~= digits);
    }
}

/// The same for `i32`: every `i32` comes back from its own text.
pub proof fn lemma_int_round_trip(n: i32)
    ensures
        int_of_text(decimal_text(n as int)) == Some(n),
{
    lemma_text_round_trip(n as int);
}

/// The one-character text of the digit that stands for `d`.
fn digit_text(d: u8) -> (text: &'static str)
    requires
        d < 10,
    ensures
        text@ == seq![digit_char(d as int)],
{
    proof {
        reveal_strlit("0");
        reveal_strlit("1");
        reveal_strlit("2");
        reveal_strlit("3");
        reveal_strlit("4");
        reveal_strlit("5");
        reveal_strlit("6");
        reveal_strlit("7");
        reveal_strlit("8");
        reveal_strlit("9");
    }
    match d {
        0 => "0",
        1 => "1",
        2 => "2",
        3 => "3",
        4 => "4",
        5 => "5",
        6 => "6",
        7 => "7",
        8 => "8",
        _ => "9",
    }
}

/// The digits of `low_first`, a run of numbers from 0 to 9, taken from its
/// end to its beginning.
spec fn digits_high_first(low_first: Seq<u8>) -> Seq<char> {
    Seq::new(low_first.len(), |i: int| digit_char(low_first[low_first.len() - 1 - i] as int))
}

/// Writes `n` as its shortest decimal numeral: `-` before a negative number,
/// no `+`, and no leading zeros.
pub fn int_to_text(n: i32) -> (text: String)
    ensures
        text@ == decimal_text(n as int),
{
    let mut text = String::new();
    if n == 0 {
        text.append(digit_text(0));
        return text;
    }
    let mut rest: u32 = if n < 0 {
        proof {
            reveal_strlit("-");
        }
        text.append("-");
        (-(n as i64)) as u32
    } else {
        n as u32
    };
    let ghost sign = text@;
    let ghost magnitude = rest as nat;
    let mut low_first: Vec<u8> = Vec::new();
    while rest > 0
        invariant
            significant_digits(magnitude) == significant_digits(rest as nat) + digits_high_first(
                low_first@,
            ),
            forall|i: int| 0 <= i < low_first@.len() ==> #[trigger] low_first@[i] < 10,
        decreases rest,
    {
        let ghost before = low_first@;
        low_first.push((rest % 10) as u8);
        proof {
            assert(digits_high_first(low_first@) =~= seq![digit_char((rest % 10) as int)]
                + digits_high_first(before));
            assert(significant_digits(rest as nat) =~= significant_digits((rest / 10) as nat)
                + seq![digit_char((rest % 10) as int)]);
        }
        rest = rest / 10;
    }
    let mut left: usize = low_first.len();
    while left > 0
        invariant
            left <= low_first@.len(),
            text@ == sign + digits_high_first(low_first@).take(low_first@.len() - left),
            forall|i: int| 0 <= i < low_first@.len() ==> #[trigger] low_first@[i] < 10,
        decreases left,
    {
        left = left - 1;
        text.append(digit_text(low_first[left]));
        proof {
            let all = digits_high_first(low_first@);
            let written = low_first@.len() - left;
            assert(all.take(written) =~= all.take(written - 1).push(
                digit_char(low_first@[left as int] as int),
            ));
        }
    }
    assert(digits_high_first(low_first@).take(low_first@.len() as int) =~= digits_high_first(
        low_first@,
    ));
    text
}

/// Reads `text` as a decimal numeral of an `i32`.
///
/// The whole text has to be the numeral: a sign, if any, comes first, and
/// every other character is a digit. Leading zeros are accepted. A text that
/// is no numeral, or whose value does not fit, is refused.
pub fn text_to_int(text: &str) -> (result: Result<i32, ConversionError>)
    ensures
        result == match int_of_text(text@) {
            Some(n) => Ok::<i32, ConversionError>(n),
            None => Err(ConversionError::MalformedNumericText),
        },
{
    let mut at_start = true;
    let mut signed = false;
    let mut negative = false;
    let mut seen_digit = false;
    let mut magnitude: i64 = 0;
    let ghost mut start: int = 0;
    for c in it: text.chars()
        invariant
            it.seq() == text@,
            at_start == (it.index() == 0),
            start == if signed { 1int } else { 0int },
            signed ==> it.index() >= 1 && (text@[0] == '-' || text@[0] == '+'),
            signed ==> negative == (text@[0] == '-'),
            !signed ==> !negative,
            !signed && it.index() >= 1 ==> is_digit(text@[0]),
            seen_digit == (it.index() > start),
            forall|i: int| start <= i < it.index() ==> is_digit(#[trigger] text@[i]),
            it.index() >= start ==> magnitude == digits_value(
                text@.subrange(start, it.index() as int),
            ),
            0 <= magnitude <= 2147483648,
    {
        let ghost k = it.index() as int;
        if at_start && (c == '-' || c == '+') {
            signed = true;
            negative = c == '-';
            proof {
                start = 1;
            }
        } else if '0' <= c && c <= '9' {
            let digit: i64 = (c as u32 - '0' as u32) as i64;
            magnitude = magnitude * 10 + digit;
            proof {
                let longer = text@.subrange(start, k + 1);
                assert(longer.drop_last() =~= text@.subrange(start, k));
            }
            if magnitude > 2147483648 {
                proof {
                    let digits = text@.subrange(start, text@.len() as int);
                    assert(digits.take(k + 1 - start) =~= text@.subrange(start, k + 1));
                    lemma_digits_value_grows(digits, k + 1 - start);
                    if signed {
                        assert(text@.drop_first() =~= digits);
                    } else {
                        assert(text@ =~= digits);
                    }
                }
                return Err(ConversionError::MalformedNumericText);
            }
            seen_digit = true;
        } else {
            proof {
                if signed {
                    assert(text@.drop_first()[k - 1] == c);
                }
            }
            return Err(ConversionError::MalformedNumericText);
        }
        at_start = false;
    }
    proof {
        let digits = text@.subrange(start, text@.len() as int);
        if signed {
            assert(text@.drop_first() =~= digits);
        } else {
            assert(text@ =~= digits);
        }
    }
    if !seen_digit {
        Err(ConversionError::MalformedNumericText)
    } else if negative {
        Ok((-magnitude) as i32)
    } else if magnitude > 2147483647 {
        Err(ConversionError::MalformedNumericText)
    } else {
        Ok(magnitude as i32)
    }
}

} // verus!
