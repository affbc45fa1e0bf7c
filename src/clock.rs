//! Instants of UTC time as plain calendar fields, and their text forms.
use vstd::prelude::*;
use crate::text::{four_digits, padded_digits, two_digits};
use chrono::{Datelike, Timelike};

verus! {

/// An instant of UTC time, by calendar date and time of day.
#[derive(Clone, Copy, Debug, PartialEq, Eq)]
pub struct Instant {
    pub year: i32,
    pub month: u32,
    pub day: u32,
    pub hour: u32,
    pub minute: u32,
    pub second: u32,
    pub nanosecond: u32,
}

pub open spec fn is_leap_year(year: int) -> bool {
    (year % 4 == 0 && year % 100 != 0) || year % 400 == 0
}

pub open spec fn days_in_month(year: int, month: int) -> int {
    if month == 2 {
        if is_leap_year(year) {
            29
        } else {
            28
        }
    } else if month == 4 || month == 6 || month == 9 || month == 11 {
        30
    } else {
        31
    }
}

/// The text of an instant as `YYYY_MM_DD_HH_MM_SS`, for a year of at most four digits.
pub open spec fn fixed_stamp(t: Instant) -> Seq<char> {
    four_digits(t.year as nat) + seq!['_'] + two_digits(t.month as nat) + seq!['_'] + two_digits(
        t.day as nat,
    ) + seq!['_'] + two_digits(t.hour as nat) + seq!['_'] + two_digits(t.minute as nat) + seq!['_']
        + two_digits(t.second as nat)
}

/// The fraction of a second as RFC 3339 text shows it: nothing for a whole
/// second, else a dot and three, six or nine digits, the fewest that are exact.
pub open spec fn fraction_text(nanosecond: nat) -> Seq<char> {
    if nanosecond == 0 {
        Seq::empty()
    } else if nanosecond % 1_000_000 == 0 {
        seq!['.'] + padded_digits(nanosecond / 1_000_000, 3)
    } else if nanosecond % 1000 == 0 {
        seq!['.'] + padded_digits(nanosecond / 1000, 6)
    } else {
        seq!['.'] + padded_digits(nanosecond, 9)
    }
}

/// The RFC 3339 text of a UTC instant, `YYYY-MM-DDTHH:MM:SS[.f]+00:00`, for a
/// year of at most four digits.
pub open spec fn fixed_rfc3339(t: Instant) -> Seq<char> {
    four_digits(t.year as nat) + seq!['-'] + two_digits(t.month as nat) + seq!['-'] + two_digits(
        t.day as nat,
    ) + seq!['T'] + two_digits(t.hour as nat) + seq![':'] + two_digits(t.minute as nat) + seq![':']
        + two_digits(t.second as nat) + fraction_text(t.nanosecond as nat) + seq![
        '+',
        '0',
        '0',
        ':',
        '0',
        '0',
    ]
}

impl Instant {
    /// A real date in the proleptic Gregorian calendar, within the years that
    /// chrono represents, and a time of day without a leap second.
    pub open spec fn wf(&self) -> bool {
        &&& -262_143 <= self.year <= 262_142
        &&& 1 <= self.month <= 12
        &&& 1 <= self.day <= days_in_month(self.year as int, self.month as int)
        &&& self.hour < 24
        &&& self.minute < 60
        &&& self.second < 60
        &&& self.nanosecond < 1_000_000_000
    }
}

/// What chrono's `format("%Y_%m_%d_%H_%M_%S")` writes for a date and time.
pub uninterp spec fn stamp_of(
    year: int,
    month: int,
    day: int,
    hour: int,
    minute: int,
    second: int,
) -> Seq<char>;

/// What chrono's `DateTime<Utc>::to_rfc3339` writes for a date and time.
pub uninterp spec fn rfc3339_of(
    year: int,
    month: int,
    day: int,
    hour: int,
    minute: int,
    second: int,
    nanosecond: int,
) -> Seq<char>;

/// Relies on chrono's `Utc::now`, read through `Datelike` and `Timelike`: a
/// valid date and time after the Unix epoch, with nanoseconds below one second.
#[verifier::external_body]
pub(crate) fn clock_now() -> (r: Instant)
    ensures
        r.wf(),
        r.year >= 1970,
{
    let now = chrono::Utc::now();
    Instant {
        year: now.year(),
        month: now.month(),
        day: now.day(),
        hour: now.hour(),
        minute: now.minute(),
        second: now.second(),
        nanosecond: now.nanosecond(),
    }
}

/// Relies on chrono's `NaiveDateTime::format` with `%Y_%m_%d_%H_%M_%S`: each
/// field zero-padded to two digits, the year to four where it has no more.
#[verifier::external_body]
pub(crate) fn stamp_text(t: &Instant) -> (r: String)
    requires
        t.wf(),
    ensures
        r@ == stamp_of(
            t.year as int,
            t.month as int,
            t.day as int,
            t.hour as int,
            t.minute as int,
            t.second as int,
        ),
        0 <= t.year <= 9999 ==> r@ == fixed_stamp(*t),
{
    let date = chrono::NaiveDate::from_ymd_opt(t.year, t.month, t.day).expect("valid date");
    let time = date.and_hms_opt(t.hour, t.minute, t.second).expect("valid time");
    time.format("%Y_%m_%d_%H_%M_%S").to_string()
}

/// Relies on chrono's `DateTime<Utc>::to_rfc3339`, the instant as RFC 3339 text:
/// fields zero-padded, the year to four digits where it has no more, the
/// fraction of a second in as few of three, six or nine digits as are exact,
/// and the offset `+00:00`.
#[verifier::external_body]
pub(crate) fn rfc3339_text(t: &Instant) -> (r: String)
    requires
        t.wf(),
    ensures
        r@ == rfc3339_of(
            t.year as int,
            t.month as int,
            t.day as int,
            t.hour as int,
            t.minute as int,
            t.second as int,
            t.nanosecond as int,
        ),
        0 <= t.year <= 9999 ==> r@ == fixed_rfc3339(*t),
{
    let date = chrono::NaiveDate::from_ymd_opt(t.year, t.month, t.day).expect("valid date");
    let time = date.and_hms_nano_opt(t.hour, t.minute, t.second, t.nanosecond).expect(
        "valid time",
    );
    time.and_utc().to_rfc3339()
}

} // verus!
