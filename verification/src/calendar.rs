//! Calendar dates, checked by `chrono`.

use chrono::Datelike;
use vstd::prelude::*;

verus! {

/// A day of the proleptic Gregorian calendar.
#[derive(Clone, Copy, Debug, PartialEq, Eq, Structural)]
pub struct CalendarDate {
    pub year: i32,
    pub month: u32,
    pub day: u32,
}

/// Leap years of the proleptic Gregorian calendar.
pub open spec fn is_leap_year(year: int) -> bool {
    year % 4 == 0 && (year % 100 != 0 || year % 400 == 0)
}

/// The number of days in `month` (1 to 12) of `year`.
pub open spec fn days_in_month(year: int, month: int) -> int {
    if month == 2 {
        if is_leap_year(year) {
            29
        } else {
            28
        }
    } else if month == 4 || month == 6 || month == 9 || month == 11 {
        30
    } else {
        31
    }
}

/// The smallest year `chrono::NaiveDate` accepts.
pub open spec fn min_year() -> int {
    -262143
}

/// The largest year `chrono::NaiveDate` accepts.
pub open spec fn max_year() -> int {
    262142
}

/// `year-month-day` is a day that exists, in the range of `chrono::NaiveDate`.
pub open spec fn is_valid_date(year: i32, month: u32, day: u32) -> bool {
    &&& min_year() <= year <= max_year()
    &&& 1 <= month <= 12
    &&& 1 <= day <= days_in_month(year as int, month as int)
}

/// `chrono::NaiveDate::from_ymd_opt`, read back through `Datelike`. Its
/// documentation and source (year range `MIN_YEAR..=MAX_YEAR`, month and day
/// checked against the Gregorian month lengths) give `Some` exactly for the
/// days that exist in that range; the contract states that.
#[verifier::external_body]
pub(crate) fn date_from_ymd(year: i32, month: u32, day: u32) -> (r: Option<CalendarDate>)
    ensures
        r == (if is_valid_date(year, month, day) {
            Some(CalendarDate { year, month, day })
        } else {
            None::<CalendarDate>
        }),
{
    chrono::NaiveDate::from_ymd_opt(year, month, day).map(
        |d| CalendarDate { year: d.year(), month: d.month(), day: d.day() },
    )
}

} // verus!
