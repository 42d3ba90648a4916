//! A round's number, closing time and state of completion as one record.

use crate::error::LotteryError;
use crate::text::{all_digits, digit_of, digit_value, is_digit};
use crate::uint256::Uint256;
use chrono::{DateTime, FixedOffset};
use vstd::prelude::*;
use vstd::string::*;

verus! {

/// The time zone in which a closing time is shown: a fixed distance from
/// UTC of less than a day, in seconds, counted eastwards.
#[derive(Clone, Copy, Debug, PartialEq, Eq)]
pub struct DisplayZone {
    offset_seconds: i32,
}

impl DisplayZone {
    #[verifier::type_invariant]
    spec fn in_range(self) -> bool {
        -86_400 < self.offset_seconds < 86_400
    }

    /// The distance from UTC in seconds, counted eastwards.
    pub closed spec fn offset(self) -> int {
        self.offset_seconds as int
    }

    /// UTC itself.
    pub fn utc() -> (r: DisplayZone)
        ensures
            r.offset() == 0,
    {
        DisplayZone { offset_seconds: 0 }
    }

    /// The zone that lies `seconds` east of UTC, or west where `seconds` is
    /// negative. A distance of a day or more is no zone.
    pub fn east(seconds: i32) -> (r: Option<DisplayZone>)
        ensures
            -86_400 < seconds < 86_400 ==> (r matches Some(zone) && zone.offset() == seconds),
            !(-86_400 < seconds < 86_400) ==> r is None,
    {
        if -86_400 < seconds && seconds < 86_400 {
            Some(DisplayZone { offset_seconds: seconds })
        } else {
            None
        }
    }

    /// The distance from UTC in seconds, counted eastwards.
    pub fn offset_seconds(self) -> (r: i32)
        ensures
            r == self.offset(),
            -86_400 < r < 86_400,
    {
        proof {
            use_type_invariant(self);
        }
        self.offset_seconds
    }
}

/// What is known of a round: its number, when it closes, as text in the
/// display time zone, and whether it is finalized.
#[derive(Debug, PartialEq, Eq)]
pub struct RoundInfo {
    pub round_number: Uint256,
    pub closing_time: String,
    pub finalized: bool,
}

impl Clone for RoundInfo {
    fn clone(&self) -> (r: Self)
        ensures
            r == *self,
    {
        RoundInfo {
            round_number: self.round_number,
            closing_time: self.closing_time.clone(),
            finalized: self.finalized,
        }
    }
}

/// The pattern of a closing time, in chrono's notation: day, month and
/// year between strokes, a space, and hour, minute and second between colons.
pub open spec fn closing_time_pattern() -> Seq<char> {
    seq!['%', 'd', '/', '%', 'm', '/', '%', 'Y', ' ', '%', 'H', ':', '%', 'M', ':', '%', 'S']
}

fn closing_pattern() -> (r: &'static str)
    ensures
        r@ == closing_time_pattern(),
{
    proof {
        reveal_strlit("%d/%m/%Y %H:%M:%S");
    }
    let r = "%d/%m/%Y %H:%M:%S";
    assert(r@ =~= closing_time_pattern());
    r
}

/// The text that `pattern` gives for the moment `epoch_seconds` seconds after
/// the start of 1970 in UTC, read on a clock that is `offset_seconds` ahead of
/// UTC; `None` for a moment outside the calendar's range.
pub uninterp spec fn calendar_text(
    epoch_seconds: int,
    offset_seconds: int,
    pattern: Seq<char>,
) -> Option<Seq<char>>;

/// Calls chrono: `DateTime::from_timestamp` with no nanoseconds, and on the
/// moment it gives `with_timezone` for `FixedOffset::east_opt` of
/// `east_seconds`, then `format` with the pattern and `to_string`. Trusted,
/// for the pattern of closing times and no other: the outcome depends on the
/// two numbers and the pattern alone, so it has a name; it is `None` exactly
/// where `from_timestamp` gives no moment.
#[verifier::external_body]
fn render_timestamp(epoch_seconds: i64, east_seconds: i32, pattern: &str) -> (r: Option<String>)
    requires
        -86_400 < east_seconds < 86_400,
        pattern@ == closing_time_pattern(),
    ensures
        match calendar_text(epoch_seconds as int, east_seconds as int, pattern@) {
            Some(text) => r matches Some(s) && s@ == text,
            None => r is None,
        },
{
    let zone = FixedOffset::east_opt(east_seconds).unwrap();
    match DateTime::from_timestamp(epoch_seconds, 0) {
        Some(moment) => Some(moment.with_timezone(&zone).format(pattern).to_string()),
        None => None,
    }
}

/// Whether the two characters of `text` from `at` on are digits.
pub open spec fn is_two_digits(text: Seq<char>, at: int) -> bool {
    is_digit(text[at]) && is_digit(text[at + 1])
}

/// The number that the two digits of `text` from `at` on stand for.
pub open spec fn two_digit_value(text: Seq<char>, at: int) -> nat {
    digit_value(text[at]) * 10 + digit_value(text[at + 1])
}

/// Whether `year` is a year in digits: four or more of them, with or
/// without a sign before them.
pub open spec fn is_year_text(year: Seq<char>) -> bool {
    if year.len() > 0 && (year[0] == '+' || year[0] == '-') {
        year.len() >= 5 && all_digits(year.skip(1))
    } else {
        year.len() >= 4 && all_digits(year)
    }
}

/// Whether `text` is a date and a time of day: a day from 01 to 31, a month
/// from 01 to 12 and a year between strokes, then a space and an hour from 00
/// to 23, a minute and a second from 00 to 59 between colons.
pub open spec fn is_calendar_text(text: Seq<char>) -> bool {
    let len = text.len() as int;
    &&& len >= 19
    &&& is_two_digits(text, 0) && 1 <= two_digit_value(text, 0) <= 31
    &&& text[2] == '/'
    &&& is_two_digits(text, 3) && 1 <= two_digit_value(text, 3) <= 12
    &&& text[5] == '/'
    &&& is_year_text(text.subrange(6, len - 9))
    &&& text[len - 9] == ' '
    &&& is_two_digits(text, len - 8) && two_digit_value(text, len - 8) <= 23
    &&& text[len - 6] == ':'
    &&& is_two_digits(text, len - 5) && two_digit_value(text, len - 5) <= 59
    &&& text[len - 3] == ':'
    &&& is_two_digits(text, len - 2) && two_digit_value(text, len - 2) <= 59
}

/// Reads the two digits of `text` from `at` on.
fn two_digits_at(text: &str, at: usize) -> (r: Option<u8>)
    requires
        at + 1 < text@.len(),
        at < usize::MAX,
    ensures
        match r {
            Some(value) => is_two_digits(text@, at as int) && value == two_digit_value(
                text@,
                at as int,
            ),
            None => !is_two_digits(text@, at as int),
        },
{
    match (digit_of(text.get_char(at)), digit_of(text.get_char(at + 1))) {
        (Some(tens), Some(ones)) => Some(tens * 10 + ones),
        _ => None,
    }
}

/// Tells whether the characters of `text` from `from` up to `to` are a year.
fn is_year_at(text: &str, from: usize, to: usize) -> (r: bool)
    requires
        from <= to <= text@.len(),
    ensures
        r == is_year_text(text@.subrange(from as int, to as int)),
{
    let ghost year = text@.subrange(from as int, to as int);
    let mut at = from;
    if from < to {
        let first = text.get_char(from);
        assert(year[0] == first);
        if first == '+' || first == '-' {
            at = from + 1;
        }
    }
    let ghost digits = text@.subrange(at as int, to as int);
    assert(is_year_text(year) <==> digits.len() >= 4 && all_digits(digits)) by {
        if at == from {
            assert(digits =~= year);
        } else {
            assert(digits =~= year.skip(1));
        }
    }
    if to - at < 4 {
        return false;
    }
    let mut seen = at;
    while seen < to
        invariant
            from <= at <= seen <= to <= text@.len(),
            to - at >= 4,
            digits == text@.subrange(at as int, to as int),
            is_year_text(text@.subrange(from as int, to as int)) <==> digits.len() >= 4
                && all_digits(digits),
            forall|i: int| 0 <= i < seen - at ==> is_digit(#[trigger] digits[i]),
        decreases to - seen,
    {
        if digit_of(text.get_char(seen)).is_none() {
            assert(!is_digit(digits[seen - at]));
            return false;
        }
        seen = seen + 1;
    }
    true
}

/// Tells whether `text` is a date and a time of day.
pub fn has_calendar_shape(text: &str) -> (r: bool)
    ensures
        r == is_calendar_text(text@),
{
    let len = text.unicode_len();
    if len < 19 {
        return false;
    }
    let day = two_digits_at(text, 0);
    let month = two_digits_at(text, 3);
    let hour = two_digits_at(text, len - 8);
    let minute = two_digits_at(text, len - 5);
    let second = two_digits_at(text, len - 2);
    match (day, month, hour, minute, second) {
        (Some(day), Some(month), Some(hour), Some(minute), Some(second)) => {
            1 <= day && day <= 31 && 1 <= month && month <= 12 && hour <= 23 && minute <= 59
                && second <= 59 && text.get_char(2) == '/' && text.get_char(5) == '/'
                && text.get_char(len - 9) == ' ' && text.get_char(len - 6) == ':' && text.get_char(
                len - 3,
            ) == ':' && is_year_at(text, 6, len - 9)
        },
        _ => false,
    }
}

/// The closing time of a round as text, for a time in seconds since the
/// start of 1970 as the chain gives it. There is none for a time beyond the
/// 63 bits of a signed timestamp, nor for one outside the calendar's range,
/// nor where what the calendar gives is no date and time of day.
pub open spec fn closing_time_text(closing_epoch_seconds: nat, offset_seconds: int) -> Option<
    Seq<char>,
> {
    if closing_epoch_seconds > i64::MAX {
        None
    } else {
        match calendar_text(closing_epoch_seconds as int, offset_seconds, closing_time_pattern()) {
            Some(text) => if is_calendar_text(text) {
                Some(text)
            } else {
                None
            },
            None => None,
        }
    }
}

/// Puts a round's record together from its closing time as text. Where
/// there is no text, or the text is no date and time of day, the time in
/// seconds is refused.
pub fn round_info_from(
    round_number: Uint256,
    closing_epoch_seconds: Uint256,
    closing_time: Option<String>,
    finalized: bool,
) -> (r: Result<RoundInfo, LotteryError>)
    ensures
        match closing_time {
            Some(text) => if is_calendar_text(text@) {
                r == Ok::<RoundInfo, LotteryError>(
                    RoundInfo { round_number, closing_time: text, finalized },
                )
            } else {
                r == Err::<RoundInfo, LotteryError>(
                    LotteryError::InvalidTimestamp(closing_epoch_seconds),
                )
            },
            None => r == Err::<RoundInfo, LotteryError>(
                LotteryError::InvalidTimestamp(closing_epoch_seconds),
            ),
        },
{
    match closing_time {
        Some(text) => {
            if has_calendar_shape(text.as_str()) {
                Ok(RoundInfo { round_number, closing_time: text, finalized })
            } else {
                Err(LotteryError::InvalidTimestamp(closing_epoch_seconds))
            }
        },
        None => Err(LotteryError::InvalidTimestamp(closing_epoch_seconds)),
    }
}

/// Puts a round's record together: the closing time, in seconds since the
/// start of 1970 in UTC, is written as a date and time of day in `zone`. A
/// time that no date stands for is refused. The record keeps the round
/// number and the flag as they are, and its closing time is a date and a time
/// of day in every zone: the day from 1 to 31, the hour from 0 to 23.
pub fn assemble(
    round_number: Uint256,
    closing_epoch_seconds: Uint256,
    finalized: bool,
    zone: DisplayZone,
) -> (r: Result<RoundInfo, LotteryError>)
    ensures
        match closing_time_text(closing_epoch_seconds@, zone.offset()) {
            Some(text) => r matches Ok(info) && info.round_number == round_number
                && info.closing_time@ == text && info.finalized == finalized,
            None => r == Err::<RoundInfo, LotteryError>(
                LotteryError::InvalidTimestamp(closing_epoch_seconds),
            ),
        },
        r matches Ok(info) ==> is_calendar_text(info.closing_time@),
{
    let rendered = match closing_epoch_seconds.to_u64() {
        Some(seconds) => {
            if seconds <= i64::MAX as u64 {
                render_timestamp(seconds as i64, zone.offset_seconds(), closing_pattern())
            } else {
                None
            }
        },
        None => None,
    };
    round_info_from(round_number, closing_epoch_seconds, rendered, finalized)
}

} // verus!
