//! Reading a time label as a number of seconds since the Unix epoch.
use vstd::prelude::*;
use vstd::string::*;
use crate::error::{TimecurveError, TimecurveErrorKind};
use crate::projection::fails_with;

verus! {

/// The format of a date and time in UTC, as in `2021-01-01T00:00:00Z`.
pub const ISO_FORMAT: &'static str = "%Y-%m-%dT%H:%M:%SZ";

/// The format of a date and time with a fraction of a second, as in
/// `2021-01-01 00:00:00.000`.
pub const SPACED_FORMAT: &'static str = "%Y-%m-%d %H:%M:%S.%f";

/// Whether a character is one of the ten decimal digits.
pub open spec fn is_digit(c: char) -> bool {
    '0' <= c <= '9'
}

/// The value of a decimal digit.
pub open spec fn digit_value(c: char) -> int {
    c as int - '0' as int
}

/// Whether every character of a sequence is a decimal digit.
pub open spec fn all_digits(digits: Seq<char>) -> bool {
    forall|i: int| 0 <= i < digits.len() ==> is_digit(#[trigger] digits[i])
}

/// The number that a sequence of decimal digits writes.
pub open spec fn decimal_value(digits: Seq<char>) -> int
    decreases digits.len(),
{
    if digits.len() == 0 {
        0
    } else {
        10 * decimal_value(digits.drop_last()) + digit_value(digits.last())
    }
}

/// The digits of a signed decimal number: the text without its sign.
pub open spec fn unsigned_part(text: Seq<char>) -> Seq<char> {
    if text.len() > 0 && (text[0] == '-' || text[0] == '+') {
        text.skip(1)
    } else {
        text
    }
}

/// The integer that a text writes in base ten, if it writes one that fits in
/// 64 bits: an optional sign (`+` or `-`), then at least one digit, and nothing
/// else.
pub open spec fn decimal_i64(text: Seq<char>) -> Option<i64> {
    let digits = unsigned_part(text);
    let magnitude = decimal_value(digits);
    let value = if text.len() > 0 && text[0] == '-' {
        -magnitude
    } else {
        magnitude
    };
    if digits.len() > 0 && all_digits(digits) && i64::MIN <= value <= i64::MAX {
        Some(value as i64)
    } else {
        None
    }
}

/// A number written in digits is at least the number written by any of its
/// prefixes.
pub proof fn lemma_decimal_value_grows(digits: Seq<char>, k: int)
    requires
        all_digits(digits),
        0 <= k <= digits.len(),
    ensures
        0 <= decimal_value(digits.take(k)) <= decimal_value(digits),
    decreases digits.len(),
{
    if digits.len() == 0 {
        assert(digits.take(k) =~= digits);
    } else if k == digits.len() {
        assert(digits.take(k) =~= digits);
        lemma_decimal_value_grows(digits.drop_last(), k - 1);
        assert(is_digit(digits.last()));
    } else {
        assert(all_digits(digits.drop_last())) by {
            assert forall|i: int| 0 <= i < digits.drop_last().len() implies is_digit(
                #[trigger] digits.drop_last()[i],
            ) by {
                assert(digits.drop_last()[i] == digits[i]);
            }
        }
        lemma_decimal_value_grows(digits.drop_last(), k);
        assert(digits.drop_last().take(k) =~= digits.take(k));
        assert(is_digit(digits.last()));
    }
}

/// Reads a text as a signed integer in base ten.
pub fn parse_decimal(text: &str) -> (value: Option<i64>)
    ensures
        value == decimal_i64(text@),
{
    let n = text.unicode_len();
    if n == 0 {
        return None;
    }
    let first = text.get_char(0);
    let negative = first == '-';
    let start: usize = if first == '-' || first == '+' {
        1
    } else {
        0
    };
    if start == n {
        return None;
    }
    let ghost digits = unsigned_part(text@);
    assert(digits.len() == n - start);
    let mut magnitude: i128 = 0;
    let mut i: usize = start;
    while i < n
        invariant
            n == text@.len(),
            start <= i <= n,
            start <= 1,
            digits == unsigned_part(text@),
            digits.len() == n - start,
            forall|k: int| 0 <= k < digits.len() ==> digits[k] == text@[k + start],
            all_digits(digits.take(i - start)),
            magnitude == decimal_value(digits.take(i - start)),
            0 <= magnitude <= 0x8000_0000_0000_0000,
        decreases n - i,
    {
        let c = text.get_char(i);
        let ghost before = digits.take(i - start);
        let ghost after = digits.take(i - start + 1);
        assert(after.drop_last() =~= before);
        assert(after.last() == c);
        if c < '0' || c > '9' {
            assert(!is_digit(digits[i - start]));
            return None;
        }
        let d: u32 = c as u32 - '0' as u32;
        assert(all_digits(after)) by {
            assert forall|k: int| 0 <= k < after.len() implies is_digit(#[trigger] after[k]) by {
                if k < before.len() {
                    assert(after[k] == before[k]);
                }
            }
        }
        magnitude = magnitude * 10 + d as i128;
        assert(magnitude == decimal_value(after));
        if magnitude > 0x8000_0000_0000_0000 {
            proof {
                if all_digits(digits) {
                    lemma_decimal_value_grows(digits, i - start + 1);
                }
            }
            return None;
        }
        i += 1;
    }
    assert(digits.take(n - start) =~= digits);
    if negative {
        Some((-magnitude) as i64)
    } else if magnitude <= 0x7fff_ffff_ffff_ffff {
        Some(magnitude as i64)
    } else {
        None
    }
}

/// The seconds since the Unix epoch of the date and time that `text` writes in
/// the format `format`, where it writes one.
pub uninterp spec fn naive_timestamp(text: Seq<char>, format: Seq<char>) -> Option<i64>;

/// `chrono::NaiveDateTime::parse_from_str` reads `text` in the `strftime`
/// format `format`; what it reads is taken as a time in UTC
/// (`NaiveDateTime::and_utc`) and handed back as whole seconds since the Unix
/// epoch (`DateTime::timestamp`), `None` where the text does not match.
///
/// The contract claims only that the outcome is a function of the two texts.
#[verifier::external_body]
fn parse_naive_timestamp(text: &str, format: &str) -> (seconds: Option<i64>)
    ensures
        seconds == naive_timestamp(text@, format@),
{
    match chrono::NaiveDateTime::parse_from_str(text, format) {
        Ok(datetime) => Some(datetime.and_utc().timestamp()),
        Err(_) => None,
    }
}

/// The time of a label, from what its two readings as a date gave: the first
/// reading that succeeded, else the label read as a number of seconds.
pub open spec fn first_time(iso: Option<i64>, spaced: Option<i64>, label: Seq<char>) -> Option<i64> {
    if iso is Some {
        iso
    } else if spaced is Some {
        spaced
    } else {
        decimal_i64(label)
    }
}

/// The time of a label: read as a date and time in UTC, else as a date and
/// time with a fraction of a second, else as a number of seconds.
pub open spec fn label_time(label: Seq<char>) -> Option<i64> {
    first_time(
        naive_timestamp(label, ISO_FORMAT@),
        naive_timestamp(label, SPACED_FORMAT@),
        label,
    )
}

/// Chooses the time of a label among its readings: `iso` if the label was a
/// date and time in UTC, else `spaced` if it was a date and time with a
/// fraction of a second, else the label as a number of seconds. A label that
/// is none of these is refused with `InvalidTimeLabel`.
pub fn select_time(iso: Option<i64>, spaced: Option<i64>, label: &str) -> (result: Result<
    i64,
    TimecurveError,
>)
    ensures
        match first_time(iso, spaced, label@) {
            Some(t) => result == Ok::<i64, TimecurveError>(t),
            None => fails_with(result, TimecurveErrorKind::InvalidTimeLabel),
        },
{
    if let Some(t) = iso {
        return Ok(t);
    }
    if let Some(t) = spaced {
        return Ok(t);
    }
    if let Some(t) = parse_decimal(label) {
        return Ok(t);
    }
    let mut detail = "Label : \"".to_owned();
    detail.append(label);
    detail.append("\"");
    Err(TimecurveError::new(TimecurveErrorKind::InvalidTimeLabel, Some(detail.as_str())))
}

/// Converts a time label to seconds since the Unix epoch. The label is taken
/// to be in UTC.
pub fn label_to_time(label: &str) -> (result: Result<i64, TimecurveError>)
    ensures
        match label_time(label@) {
            Some(t) => result == Ok::<i64, TimecurveError>(t),
            None => fails_with(result, TimecurveErrorKind::InvalidTimeLabel),
        },
{
    let iso = parse_naive_timestamp(label, ISO_FORMAT);
    let spaced = parse_naive_timestamp(label, SPACED_FORMAT);
    select_time(iso, spaced, label)
}

} // verus!
