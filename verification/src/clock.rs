//! The calendar, and times as text.

use vstd::prelude::*;
use vstd::string::StringExecFns;
use crate::number::{decimal, decimal_text, padded, padded_text};
use crate::state::Span;

verus! {

// ---------------------------------------------------------------------------
// The calendar
// ---------------------------------------------------------------------------

/// Whether a year has a 29th of February.
pub open spec fn leap(year: int) -> bool {
    (year % 4 == 0 && year % 100 != 0) || year % 400 == 0
}

/// Whether a year has a 29th of February.
pub fn is_leap(year: u64) -> (r: bool)
    ensures
        r == leap(year as int),
{
    (year % 4 == 0 && year % 100 != 0) || year % 400 == 0
}

/// The days of a year.
pub open spec fn year_days(year: int) -> int {
    if leap(year) {
        366
    } else {
        365
    }
}

/// The days of a month, the first month being 1.
pub open spec fn month_days(year: int, month: int) -> int {
    if month == 2 {
        if leap(year) {
            29
        } else {
            28
        }
    } else if month == 4 || month == 6 || month == 9 || month == 11 {
        30
    } else {
        31
    }
}

/// The days of a month, the first month being 1.
fn days_in_month(year: u64, month: u64) -> (r: u64)
    ensures
        r == month_days(year as int, month as int),
{
    if month == 2 {
        if is_leap(year) {
            29
        } else {
            28
        }
    } else if month == 4 || month == 6 || month == 9 || month == 11 {
        30
    } else {
        31
    }
}

/// The days from the beginning of 1970 to the beginning of `year`.
pub open spec fn days_before_year(year: int) -> int
    decreases year - 1970,
{
    if year <= 1970 {
        0
    } else {
        days_before_year(year - 1) + year_days(year - 1)
    }
}

/// The days from the beginning of `year` to the beginning of `month`.
pub open spec fn days_before_month(year: int, month: int) -> int
    decreases month,
{
    if month <= 1 {
        0
    } else {
        days_before_month(year, month - 1) + month_days(year, month - 1)
    }
}

/// A day of the calendar.
#[derive(Clone, Copy, Debug, PartialEq, Eq, Structural)]
pub struct Date {
    pub year: u64,
    pub month: u64,
    pub day: u64,
}

impl Date {
    /// Whether there is such a day, from 1970 on.
    pub open spec fn valid(self) -> bool {
        &&& 1970 <= self.year
        &&& 1 <= self.month <= 12
        &&& 1 <= self.day <= month_days(self.year as int, self.month as int)
    }

    /// The number of the day; the first of January 1970 is day 0.
    pub open spec fn number(self) -> int {
        days_before_year(self.year as int) + days_before_month(
            self.year as int,
            self.month as int,
        ) + self.day - 1
    }
}

/// The day with this number.
pub open spec fn date_of(days: int) -> Date {
    choose|date: Date| date.valid() && #[trigger] date.number() == days
}

proof fn lemma_years_grow(a: int, b: int)
    requires
        1970 <= a <= b,
    ensures
        days_before_year(a) + 365 * (b - a) <= days_before_year(b),
    decreases b - a,
{
    if a < b {
        lemma_years_grow(a, b - 1);
    }
}

proof fn lemma_months_grow(year: int, a: int, b: int)
    requires
        1 <= a <= b,
    ensures
        days_before_month(year, a) <= days_before_month(year, b),
    decreases b - a,
{
    if a < b {
        lemma_months_grow(year, a, b - 1);
    }
}

/// The months of a year make up the year.
proof fn lemma_months_fill_year(year: int)
    ensures
        days_before_month(year, 13) == year_days(year),
{
    reveal_with_fuel(days_before_month, 14);
}

/// A valid day lies within its month and its year.
proof fn lemma_day_in_year(date: Date)
    requires
        date.valid(),
    ensures
        days_before_month(date.year as int, date.month as int) + date.day <= days_before_month(
            date.year as int,
            date.month + 1,
        ),
        days_before_year(date.year as int) <= date.number() < days_before_year(date.year + 1),
{
    lemma_months_grow(date.year as int, date.month + 1, 13);
    lemma_months_grow(date.year as int, 1, date.month as int);
    lemma_months_fill_year(date.year as int);
}

/// No two days of the calendar have the same number.
pub proof fn law_days_are_distinct(a: Date, b: Date)
    requires
        a.valid(),
        b.valid(),
        a.number() == b.number(),
    ensures
        a == b,
{
    lemma_day_in_year(a);
    lemma_day_in_year(b);
    if a.year < b.year {
        lemma_years_grow(a.year + 1, b.year as int);
    } else if b.year < a.year {
        lemma_years_grow(b.year + 1, a.year as int);
    } else if a.month < b.month {
        lemma_months_grow(a.year as int, a.month + 1, b.month as int);
    } else if b.month < a.month {
        lemma_months_grow(a.year as int, b.month + 1, a.month as int);
    }
}

/// The day of the calendar with this number.
pub fn civil_date(days: u64) -> (r: Date)
    ensures
        r.valid(),
        r.number() == days,
        r == date_of(days as int),
{
    let mut year: u64 = 1970;
    let mut rest: u64 = days;
    loop
        invariant
            1970 <= year,
            days == days_before_year(year as int) + rest,
        ensures
            1970 <= year < u64::MAX,
            days == days_before_year(year as int) + rest,
            rest < year_days(year as int),
        decreases rest,
    {
        proof {
            lemma_years_grow(1970, year as int);
        }
        let length: u64 = if is_leap(year) {
            366
        } else {
            365
        };
        if rest < length {
            break;
        }
        rest -= length;
        year += 1;
    }
    let mut month: u64 = 1;
    let ghost in_year = rest;
    proof {
        lemma_months_fill_year(year as int);
    }
    while month < 12 && rest >= days_in_month(year, month)
        invariant
            1 <= month <= 12,
            in_year == days_before_month(year as int, month as int) + rest,
        decreases 12 - month,
    {
        rest -= days_in_month(year, month);
        month += 1;
    }
    let date = Date { year, month, day: rest + 1 };
    proof {
        assert(rest < month_days(year as int, month as int)) by {
            if month == 12 {
                assert(days_before_month(year as int, 13) == days_before_month(year as int, 12)
                    + month_days(year as int, 12));
            }
        }
        assert(date.number() == days);
        law_days_are_distinct(date, date_of(days as int));
    }
    date
}

// ---------------------------------------------------------------------------
// Times as text
// ---------------------------------------------------------------------------

/// The time of day in a number of seconds since the beginning of 1970.
pub open spec fn day_time(secs: int) -> Seq<char> {
    padded((secs % 86400 / 3600) as nat, 2) + ":"@ + padded((secs % 3600 / 60) as nat, 2) + ":"@
        + padded((secs % 60) as nat, 2)
}

fn day_time_text(secs: u64) -> (r: String)
    ensures
        r@ == day_time(secs as int),
{
    let mut s = padded_text(secs % 86400 / 3600, 2);
    s.append(":");
    s.append(&padded_text(secs % 86400 % 3600 / 60, 2));
    s.append(":");
    s.append(&padded_text(secs % 86400 % 60, 2));
    assert(secs % 86400 % 3600 == secs % 3600);
    assert(secs % 86400 % 60 == secs % 60);
    s
}

/// A date as numbers: year, month and day.
pub open spec fn date_digits(year: nat, month: nat, day: nat) -> Seq<char> {
    padded(year, 4) + "-"@ + padded(month, 2) + "-"@ + padded(day, 2)
}

fn date_text(year: u64, month: u64, day: u64) -> (r: String)
    ensures
        r@ == date_digits(year as nat, month as nat, day as nat),
{
    let mut s = padded_text(year, 4);
    s.append("-");
    s.append(&padded_text(month, 2));
    s.append("-");
    s.append(&padded_text(day, 2));
    s
}

/// The date and time, in UTC, this many seconds after the beginning of 1970.
pub open spec fn utc_digits(secs: int) -> Seq<char> {
    let date = date_of(secs / 86400);
    date_digits(date.year as nat, date.month as nat, date.day as nat) + " "@ + day_time(secs)
}

/// The date and time, in UTC, this many seconds after the beginning of 1970.
pub fn utc_text(secs: u64) -> (r: String)
    ensures
        r@ == utc_digits(secs as int),
{
    let date = civil_date(secs / 86400);
    let mut s = date_text(date.year, date.month, date.day);
    s.append(" ");
    s.append(&day_time_text(secs));
    s
}

/// A date and time that the machine's time zone gives.
#[derive(Clone, Copy, Debug, PartialEq, Eq, Structural)]
pub struct LocalTime {
    pub year: u64,
    pub month: u64,
    pub day: u64,
    pub hour: u64,
    pub minute: u64,
    pub second: u64,
}

impl LocalTime {
    pub open spec fn digits(self) -> Seq<char> {
        date_digits(self.year as nat, self.month as nat, self.day as nat) + " "@ + padded(
            self.hour as nat,
            2,
        ) + ":"@ + padded(self.minute as nat, 2) + ":"@ + padded(self.second as nat, 2)
    }

    /// The date and time as text.
    pub fn text(self) -> (r: String)
        ensures
            r@ == self.digits(),
    {
        let mut s = date_text(self.year, self.month, self.day);
        s.append(" ");
        s.append(&padded_text(self.hour, 2));
        s.append(":");
        s.append(&padded_text(self.minute, 2));
        s.append(":");
        s.append(&padded_text(self.second, 2));
        s
    }
}

/// The name at this place in the week, Sunday being 0.
pub open spec fn day_name(i: int) -> Seq<char> {
    if i == 0 {
        "Sun"@
    } else if i == 1 {
        "Mon"@
    } else if i == 2 {
        "Tue"@
    } else if i == 3 {
        "Wed"@
    } else if i == 4 {
        "Thu"@
    } else if i == 5 {
        "Fri"@
    } else {
        "Sat"@
    }
}

fn day_name_text(i: u64) -> (r: &'static str)
    ensures
        r@ == day_name(i as int),
{
    if i == 0 {
        "Sun"
    } else if i == 1 {
        "Mon"
    } else if i == 2 {
        "Tue"
    } else if i == 3 {
        "Wed"
    } else if i == 4 {
        "Thu"
    } else if i == 5 {
        "Fri"
    } else {
        "Sat"
    }
}

/// The name of a month, January being 1.
pub open spec fn month_name(i: int) -> Seq<char> {
    if i == 1 {
        "Jan"@
    } else if i == 2 {
        "Feb"@
    } else if i == 3 {
        "Mar"@
    } else if i == 4 {
        "Apr"@
    } else if i == 5 {
        "May"@
    } else if i == 6 {
        "Jun"@
    } else if i == 7 {
        "Jul"@
    } else if i == 8 {
        "Aug"@
    } else if i == 9 {
        "Sep"@
    } else if i == 10 {
        "Oct"@
    } else if i == 11 {
        "Nov"@
    } else {
        "Dec"@
    }
}

fn month_name_text(i: u64) -> (r: &'static str)
    ensures
        r@ == month_name(i as int),
{
    if i == 1 {
        "Jan"
    } else if i == 2 {
        "Feb"
    } else if i == 3 {
        "Mar"
    } else if i == 4 {
        "Apr"
    } else if i == 5 {
        "May"
    } else if i == 6 {
        "Jun"
    } else if i == 7 {
        "Jul"
    } else if i == 8 {
        "Aug"
    } else if i == 9 {
        "Sep"
    } else if i == 10 {
        "Oct"
    } else if i == 11 {
        "Nov"
    } else {
        "Dec"
    }
}

/// The date and time in the form of an HTTP header. The first day of 1970 was a
/// Thursday.
pub open spec fn http_date(secs: int) -> Seq<char> {
    let days = secs / 86400;
    let date = date_of(days);
    day_name((days + 4) % 7) + ", "@ + padded(date.day as nat, 2) + " "@ + month_name(
        date.month as int,
    ) + " "@ + decimal(date.year as nat) + " "@ + day_time(secs) + " GMT"@
}

/// The date and time in the form of an HTTP header, this many seconds after the
/// beginning of 1970.
pub fn http_date_text(secs: u64) -> (r: String)
    ensures
        r@ == http_date(secs as int),
{
    let days: u64 = secs / 86400;
    let date = civil_date(days);
    let mut s = day_name_text((days + 4) % 7).to_owned();
    s.append(", ");
    s.append(&padded_text(date.day, 2));
    s.append(" ");
    s.append(month_name_text(date.month));
    s.append(" ");
    s.append(&decimal_text(date.year));
    s.append(" ");
    s.append(&day_time_text(secs));
    s.append(" GMT");
    s
}

// ---------------------------------------------------------------------------
// Now
// ---------------------------------------------------------------------------

/// Calls `SystemTime::elapsed` on the Unix epoch: the time since the beginning of
/// 1970, and no time where the clock stands before it. Which time that is depends
/// on the clock, so nothing is said of it.
#[verifier::external_body]
pub(crate) fn unix_time() -> (r: Span)
    ensures
        r.valid(),
{
    let elapsed = std::time::UNIX_EPOCH.elapsed().unwrap_or_default();
    Span { secs: elapsed.as_secs(), nanos: elapsed.subsec_nanos() }
}

/// The current date and time in the form of an HTTP header.
pub fn timestamp_rfc1123() -> (r: String)
    ensures
        exists|secs: u64| r@ == #[trigger] http_date(secs as int),
{
    let now = unix_time();
    http_date_text(now.secs)
}

/// The current date and time in UTC, as numbers.
pub fn timestamp() -> (r: String)
    ensures
        exists|secs: u64| r@ == #[trigger] utc_digits(secs as int),
{
    let now = unix_time();
    utc_text(now.secs)
}

} // verus!
