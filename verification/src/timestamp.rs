//! Calendar date-times as plain values, with the validity rules the decoder
//! needs: month and day ranges (leap years included) and time-of-day ranges.

use vstd::prelude::*;
use crate::text::{all_digits, all_digits_exec, digit_val, is_digit};
use crate::packet::DecodeError;

verus! {

/// A naive calendar date-time: no time zone, second precision.
#[derive(Clone, Copy, Debug, PartialEq, Eq, Structural)]
pub struct Timestamp {
    pub year: u16,
    pub month: u8,
    pub day: u8,
    pub hour: u8,
    pub minute: u8,
    pub second: u8,
}

/// The Gregorian leap-year rule.
pub open spec fn is_leap_year(y: int) -> bool {
    y % 4 == 0 && (y % 100 != 0 || y % 400 == 0)
}

/// How many days month `m` of year `y` has.
pub open spec fn spec_days_in_month(y: int, m: int) -> int {
    if m == 2 {
        if is_leap_year(y) {
            29
        } else {
            28
        }
    } else if m == 4 || m == 6 || m == 9 || m == 11 {
        30
    } else {
        31
    }
}

/// The fields form a real calendar date and time of day.
pub open spec fn valid_timestamp(t: Timestamp) -> bool {
    &&& 1 <= t.month <= 12
    &&& 1 <= t.day <= spec_days_in_month(t.year as int, t.month as int)
    &&& t.hour < 24
    &&& t.minute < 60
    &&& t.second < 60
}

/// How many days month `m` of year `y` has.
pub fn days_in_month(y: u16, m: u8) -> (r: u8)
    ensures
        r == spec_days_in_month(y as int, m as int),
{
    if m == 2 {
        if y % 4 == 0 && (y % 100 != 0 || y % 400 == 0) {
            29
        } else {
            28
        }
    } else if m == 4 || m == 6 || m == 9 || m == 11 {
        30
    } else {
        31
    }
}

/// The value of the two digits of `s` at positions `i` and `i + 1`.
pub open spec fn spec_two_digits(s: Seq<char>, i: int) -> int {
    digit_val(s[i]) * 10 + digit_val(s[i + 1])
}

/// Reads the two-digit number at position `i` of an all-digit text.
fn two_digits(s: &str, i: usize) -> (r: u8)
    requires
        i + 2 <= s@.len(),
        i <= 4,
        all_digits(s@),
    ensures
        r == spec_two_digits(s@, i as int),
{
    let c0 = s.get_char(i);
    let c1 = s.get_char(i + 1);
    assert(is_digit(s@[i as int]));
    assert(is_digit(s@[i + 1]));
    let d0 = (c0 as u32 - 48) as u8;
    let d1 = (c1 as u32 - 48) as u8;
    d0 * 10 + d1
}

/// What [`timestamp`] returns for a date field and a time field.
///
/// The date is six digits `DDMMYY` (year `YY + 2000`), the time six digits
/// `HHMMSS`; a malformed or out-of-range date gives `InvalidDate`, then a
/// malformed or out-of-range time gives `InvalidTime`.
pub open spec fn spec_timestamp(date: Seq<char>, time: Seq<char>) -> Result<
    Timestamp,
    DecodeError,
> {
    if !(date.len() == 6 && all_digits(date)) {
        Err(DecodeError::InvalidDate)
    } else if !(time.len() == 6 && all_digits(time)) {
        Err(DecodeError::InvalidTime)
    } else {
        let t = Timestamp {
            year: (spec_two_digits(date, 4) + 2000) as u16,
            month: spec_two_digits(date, 2) as u8,
            day: spec_two_digits(date, 0) as u8,
            hour: spec_two_digits(time, 0) as u8,
            minute: spec_two_digits(time, 2) as u8,
            second: spec_two_digits(time, 4) as u8,
        };
        if !(1 <= t.month <= 12 && 1 <= t.day <= spec_days_in_month(
            t.year as int,
            t.month as int,
        )) {
            Err(DecodeError::InvalidDate)
        } else if !(t.hour < 24 && t.minute < 60 && t.second < 60) {
            Err(DecodeError::InvalidTime)
        } else {
            Ok(t)
        }
    }
}

/// Combines a `DDMMYY` date field and an `HHMMSS` time field into a
/// [`Timestamp`], exactly as [`spec_timestamp`] states; a returned timestamp
/// is a valid calendar date-time.
pub fn timestamp(date: &str, time: &str) -> (r: Result<Timestamp, DecodeError>)
    ensures
        r == spec_timestamp(date@, time@),
        r matches Ok(t) ==> valid_timestamp(t),
{
    if !(date.unicode_len() == 6 && all_digits_exec(date)) {
        return Err(DecodeError::InvalidDate);
    }
    if !(time.unicode_len() == 6 && all_digits_exec(time)) {
        return Err(DecodeError::InvalidTime);
    }
    let t = Timestamp {
        year: two_digits(date, 4) as u16 + 2000,
        month: two_digits(date, 2),
        day: two_digits(date, 0),
        hour: two_digits(time, 0),
        minute: two_digits(time, 2),
        second: two_digits(time, 4),
    };
    if !(1 <= t.month && t.month <= 12 && 1 <= t.day && t.day <= days_in_month(t.year, t.month)) {
        return Err(DecodeError::InvalidDate);
    }
    if !(t.hour < 24 && t.minute < 60 && t.second < 60) {
        return Err(DecodeError::InvalidTime);
    }
    Ok(t)
}

} // verus!
