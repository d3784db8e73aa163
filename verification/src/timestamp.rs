//! The local date and time, and the text that VRChat's own log lines start with.

use chrono::NaiveDate;
use vstd::prelude::*;

verus! {

/// chrono's earliest year (that of `NaiveDate::MIN`).
pub const YEAR_MIN: i32 = -262143;

/// chrono's latest year (that of `NaiveDate::MAX`).
pub const YEAR_MAX: i32 = 262142;

/// The chrono format of a timestamp, as VRChat writes it at the start of a log line.
pub const TIMESTAMP_FORMAT: &'static str = "%Y-%m-%d %H:%M:%S.0%3f";

/// A leap year of the proleptic Gregorian calendar.
pub open spec fn is_leap_year(year: int) -> bool {
    year % 4 == 0 && (year % 100 != 0 || year % 400 == 0)
}

/// The number of days of a month (1 to 12) of a year.
pub open spec fn days_in_month(year: int, month: int) -> int {
    if month == 2 {
        if is_leap_year(year) { 29 } else { 28 }
    } else if month == 4 || month == 6 || month == 9 || month == 11 {
        30
    } else {
        31
    }
}

/// The abstract value of a [`LocalTime`].
pub struct LocalTimeModel {
    pub year: int,
    pub month: int,
    pub day: int,
    pub hour: int,
    pub minute: int,
    pub second: int,
    /// Nanoseconds into the second; from one billion on, the second is a leap second.
    pub nanos: int,
}

/// A date and time that chrono can hold: a day that exists in chrono's range of years, a
/// time of day, and a leap second only at the end of a minute.
pub open spec fn valid_local_time(t: LocalTimeModel) -> bool {
    &&& YEAR_MIN <= t.year <= YEAR_MAX
    &&& 1 <= t.month <= 12
    &&& 1 <= t.day <= days_in_month(t.year, t.month)
    &&& 0 <= t.hour < 24
    &&& 0 <= t.minute < 60
    &&& 0 <= t.second < 60
    &&& 0 <= t.nanos < 2_000_000_000
    &&& t.nanos >= 1_000_000_000 ==> t.second == 59
}

/// A reading of the local clock, as a calendar date and a time of day.
pub struct LocalTime {
    year: i32,
    month: u32,
    day: u32,
    hour: u32,
    minute: u32,
    second: u32,
    nanos: u32,
}

impl View for LocalTime {
    type V = LocalTimeModel;

    closed spec fn view(&self) -> LocalTimeModel {
        LocalTimeModel {
            year: self.year as int,
            month: self.month as int,
            day: self.day as int,
            hour: self.hour as int,
            minute: self.minute as int,
            second: self.second as int,
            nanos: self.nanos as int,
        }
    }
}

impl LocalTime {
    #[verifier::type_invariant]
    spec fn well_formed(self) -> bool {
        valid_local_time(self@)
    }

    /// The date and time given by its parts, or `None` where chrono has no such date and
    /// time (see [`valid_local_time`]).
    pub fn new(
        year: i32,
        month: u32,
        day: u32,
        hour: u32,
        minute: u32,
        second: u32,
        nanos: u32,
    ) -> (r: Option<LocalTime>)
        ensures
            ({
                let m = LocalTimeModel {
                    year: year as int,
                    month: month as int,
                    day: day as int,
                    hour: hour as int,
                    minute: minute as int,
                    second: second as int,
                    nanos: nanos as int,
                };
                &&& r is Some <==> valid_local_time(m)
                &&& r matches Some(t) ==> t@ == m
            }),
    {
        if year < YEAR_MIN || year > YEAR_MAX || month < 1 || month > 12 || day < 1 {
            return None;
        }
        // an offset of a multiple of 400 years keeps the leap years and makes the year positive
        let shifted: u32 = (year + 400_000) as u32;
        let leap: bool = shifted % 4 == 0 && (shifted % 100 != 0 || shifted % 400 == 0);
        proof {
            assert(is_leap_year(year as int) == leap) by {
                assert(shifted == year + 400_000);
                assert((year + 400_000) % 4 == year % 4);
                assert((year + 400_000) % 100 == year % 100);
                assert((year + 400_000) % 400 == year % 400);
            }
        }
        let month_days: u32 = if month == 2 {
            if leap { 29 } else { 28 }
        } else if month == 4 || month == 6 || month == 9 || month == 11 {
            30
        } else {
            31
        };
        if day > month_days || hour >= 24 || minute >= 60 || second >= 60 {
            return None;
        }
        if nanos >= 2_000_000_000 || (nanos >= 1_000_000_000 && second != 59) {
            return None;
        }
        Some(LocalTime { year, month, day, hour, minute, second, nanos })
    }
}

/// The character of a decimal digit.
pub open spec fn digit_char(d: int) -> char {
    if d == 0 { '0' }
    else if d == 1 { '1' }
    else if d == 2 { '2' }
    else if d == 3 { '3' }
    else if d == 4 { '4' }
    else if d == 5 { '5' }
    else if d == 6 { '6' }
    else if d == 7 { '7' }
    else if d == 8 { '8' }
    else { '9' }
}

/// An ASCII decimal digit.
pub open spec fn is_digit_char(c: char) -> bool {
    '0' <= c <= '9'
}

/// The decimal digits of `n`, with zeros in front up to `width` digits.
pub open spec fn decimal(n: nat, width: nat) -> Seq<char>
    decreases n + width,
{
    if n < 10 && width <= 1 {
        seq![digit_char(n as int)]
    } else {
        let rest: nat = if width > 0 { (width - 1) as nat } else { 0 };
        decimal(n / 10, rest).push(digit_char((n % 10) as int))
    }
}

/// How chrono writes a year for `%Y`: four digits from 0 to 9999, else a sign and at
/// least four digits.
pub open spec fn year_text(year: int) -> Seq<char> {
    if 0 <= year <= 9999 {
        decimal(year as nat, 4)
    } else if year < 0 {
        seq!['-'] + decimal((-year) as nat, 4)
    } else {
        seq!['+'] + decimal(year as nat, 4)
    }
}

/// The text of `t` in [`TIMESTAMP_FORMAT`]: the second counts up to 60 within a leap
/// second, and the three digits after `.0` are the milliseconds.
pub open spec fn timestamp_text(t: LocalTimeModel) -> Seq<char> {
    year_text(t.year) + seq!['-'] + decimal(t.month as nat, 2) + seq!['-']
        + decimal(t.day as nat, 2) + seq![' '] + decimal(t.hour as nat, 2) + seq![':']
        + decimal(t.minute as nat, 2) + seq![':']
        + decimal((t.second + t.nanos / 1_000_000_000) as nat, 2) + seq!['.', '0']
        + decimal(((t.nanos / 1_000_000) % 1000) as nat, 3)
}

/// Twenty-four characters: `YYYY-MM-DD hh:mm:ss.0fff`, each letter a digit.
pub open spec fn timestamp_shaped(s: Seq<char>) -> bool {
    &&& s.len() == 24
    &&& s[4] == '-' && s[7] == '-'
    &&& s[10] == ' '
    &&& s[13] == ':' && s[16] == ':'
    &&& s[19] == '.' && s[20] == '0'
    &&& forall|i: int|
        0 <= i < 24 && i != 4 && i != 7 && i != 10 && i != 13 && i != 16 && i != 19
            ==> is_digit_char(#[trigger] s[i])
}

proof fn lemma_decimal_width(n: nat, width: nat)
    requires
        1 <= width <= 4,
        width == 1 ==> n < 10,
        width == 2 ==> n < 100,
        width == 3 ==> n < 1000,
        width == 4 ==> n < 10000,
    ensures
        decimal(n, width).len() == width,
        forall|i: int| 0 <= i < width ==> is_digit_char(#[trigger] decimal(n, width)[i]),
    decreases width,
{
    if width > 1 {
        lemma_decimal_width(n / 10, (width - 1) as nat);
    }
}

/// A timestamp of a year from 0 to 9999 has the fixed shape `YYYY-MM-DD hh:mm:ss.0fff`.
pub proof fn law_timestamp_shape(t: LocalTimeModel)
    requires
        valid_local_time(t),
        0 <= t.year <= 9999,
    ensures
        timestamp_shaped(timestamp_text(t)),
{
    lemma_decimal_width(t.year as nat, 4);
    lemma_decimal_width(t.month as nat, 2);
    lemma_decimal_width(t.day as nat, 2);
    lemma_decimal_width(t.hour as nat, 2);
    lemma_decimal_width(t.minute as nat, 2);
    lemma_decimal_width((t.second + t.nanos / 1_000_000_000) as nat, 2);
    lemma_decimal_width(((t.nanos / 1_000_000) % 1000) as nat, 3);
    let s = timestamp_text(t);
    assert(s.len() == 24);
    assert forall|i: int| 0 <= i < 24 && i != 4 && i != 7 && i != 10 && i != 13 && i != 16
        && i != 19 implies is_digit_char(#[trigger] s[i]) by {
        if i < 4 {
            assert(s[i] == decimal(t.year as nat, 4)[i]);
        } else if i < 7 {
            assert(s[i] == decimal(t.month as nat, 2)[i - 5]);
        } else if i < 10 {
            assert(s[i] == decimal(t.day as nat, 2)[i - 8]);
        } else if i < 13 {
            assert(s[i] == decimal(t.hour as nat, 2)[i - 11]);
        } else if i < 16 {
            assert(s[i] == decimal(t.minute as nat, 2)[i - 14]);
        } else if i < 19 {
            assert(s[i] == decimal((t.second + t.nanos / 1_000_000_000) as nat, 2)[i - 17]);
        } else if i > 20 {
            assert(s[i] == decimal(((t.nanos / 1_000_000) % 1000) as nat, 3)[i - 21]);
        }
    }
}

/// Calls chrono: builds the `NaiveDateTime` of `t` (`NaiveDate::from_ymd_opt`, then
/// `and_hms_nano_opt`, which accept every valid `LocalTime`) and formats it with
/// [`TIMESTAMP_FORMAT`] (`format(..).to_string()`). Claims what chrono's formatting source
/// does for that format: zero-padded numbers (`%Y` signed beyond four digits), the second
/// plus one within a leap second, and the milliseconds for `%3f`.
#[verifier::external_body]
fn chrono_format(t: &LocalTime, fmt: &str) -> (s: String)
    requires
        fmt@ == TIMESTAMP_FORMAT@,
    ensures
        s@ == timestamp_text(t@),
{
    let date = NaiveDate::from_ymd_opt(t.year, t.month, t.day).unwrap();
    date.and_hms_nano_opt(t.hour, t.minute, t.second, t.nanos).unwrap().format(fmt).to_string()
}

/// The timestamp of `now` as VRChat writes it, e.g. `2026-09-05 12:34:56.0123`.
pub fn formatted_timestamp(now: &LocalTime) -> (s: String)
    ensures
        s@ == timestamp_text(now@),
        0 <= now@.year <= 9999 ==> timestamp_shaped(s@),
{
    proof {
        use_type_invariant(now);
        if 0 <= now@.year <= 9999 {
            law_timestamp_shape(now@);
        }
    }
    chrono_format(now, TIMESTAMP_FORMAT)
}

} // verus!
