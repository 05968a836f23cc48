//! Dates and times as text, read back.

use vstd::prelude::*;
use crate::clock::{
    date_digits, date_of, day_name, day_time, http_date, leap, month_days, month_name, utc_digits,
    year_days, Date, LocalTime,
};
use crate::net_laws::lemma_split_first;
use crate::number::{decimal, lemma_padded_value, padded, uint_value};
use crate::reading::{lacks, lemma_lacks_joined, lemma_number_is_read, lemma_padded_plain};
use crate::state::entry_time;
use crate::text::split_spec;

verus! {

/// A year has a 29th of February where four divides it, but not in a full century that four
/// hundred does not divide.
pub proof fn law_leap_years(year: int)
    ensures
        year % 4 != 0 ==> !leap(year) && year_days(year) == 365,
        year % 4 == 0 && year % 100 != 0 ==> leap(year) && year_days(year) == 366,
        year % 100 == 0 && year % 400 != 0 ==> !leap(year),
        year % 400 == 0 ==> leap(year),
{
}

/// The months have their days, February by the year.
pub proof fn law_lengths_of_months(year: int)
    ensures
        month_days(year, 1) == 31,
        month_days(year, 2) == if leap(year) {
            29int
        } else {
            28
        },
        month_days(year, 3) == 31,
        month_days(year, 4) == 30,
        month_days(year, 5) == 31,
        month_days(year, 6) == 30,
        month_days(year, 7) == 31,
        month_days(year, 8) == 31,
        month_days(year, 9) == 30,
        month_days(year, 10) == 31,
        month_days(year, 11) == 30,
        month_days(year, 12) == 31,
{
}

proof fn lemma_padded_is_read(n: nat, width: nat, max: int)
    requires
        n <= max,
    ensures
        uint_value(padded(n, width), 10, max) == Some(n),
        forall|c: char| !('0' <= c <= '9') ==> #[trigger] lacks(padded(n, width), c),
{
    lemma_padded_value(n, width);
    assert forall|c: char| !('0' <= c <= '9') implies #[trigger] lacks(padded(n, width), c) by {
        lemma_padded_plain(n, width, c);
    }
}

/// Three texts with one character between them are the three pieces between it.
proof fn lemma_three_pieces(a: Seq<char>, b: Seq<char>, c: Seq<char>, sep: char)
    requires
        lacks(a, sep),
        lacks(b, sep),
        lacks(c, sep),
    ensures
        split_spec(a + seq![sep] + b + seq![sep] + c, sep) == seq![a, b, c],
{
    let s = seq![sep];
    assert(a + s + b + s + c =~= a + s + (b + s + c));
    lemma_split_first(a, sep, b + s + c);
    lemma_split_first(b, sep, c);
    lemma_split_first(c, sep, c);
    assert(seq![a] + (seq![b] + seq![c]) =~= seq![a, b, c]);
}

/// The hour, the minute and the second of a time of day are read back from its text, and make
/// up the seconds since midnight.
pub proof fn law_time_of_day_is_read(secs: int)
    requires
        secs >= 0,
    ensures
        ({
            let parts = split_spec(day_time(secs), ':');
            &&& parts.len() == 3
            &&& uint_value(parts[0], 10, 23) matches Some(h) && uint_value(parts[1], 10, 59) matches
                Some(m) && uint_value(parts[2], 10, 59) matches Some(s) && h * 3600 + m * 60 + s
                == secs % 86400
        }),
{
    let h = (secs % 86400 / 3600) as nat;
    let m = (secs % 3600 / 60) as nat;
    let s = (secs % 60) as nat;
    lemma_padded_is_read(h, 2, 23);
    lemma_padded_is_read(m, 2, 59);
    lemma_padded_is_read(s, 2, 59);
    assert(lacks(padded(h, 2), ':') && lacks(padded(m, 2), ':') && lacks(padded(s, 2), ':'));
    assert(":"@ == seq![':']) by {
        reveal_strlit(":");
        assert(":"@ =~= seq![':']);
    }
    lemma_three_pieces(padded(h, 2), padded(m, 2), padded(s, 2), ':');
    assert(h * 3600 + m * 60 + s == secs % 86400);
}

/// The year, the month and the day of a date are read back from its text.
pub proof fn law_date_is_read(year: nat, month: nat, day: nat)
    ensures
        ({
            let parts = split_spec(date_digits(year, month, day), '-');
            &&& parts.len() == 3
            &&& uint_value(parts[0], 10, year as int) == Some(year)
            &&& uint_value(parts[1], 10, month as int) == Some(month)
            &&& uint_value(parts[2], 10, day as int) == Some(day)
        }),
        lacks(date_digits(year, month, day), ' '),
{
    lemma_padded_is_read(year, 4, year as int);
    lemma_padded_is_read(month, 2, month as int);
    lemma_padded_is_read(day, 2, day as int);
    let y = padded(year, 4);
    let m = padded(month, 2);
    let d = padded(day, 2);
    assert(lacks(y, '-') && lacks(m, '-') && lacks(d, '-'));
    assert(lacks(y, ' ') && lacks(m, ' ') && lacks(d, ' '));
    assert("-"@ == seq!['-']) by {
        reveal_strlit("-");
        assert("-"@ =~= seq!['-']);
    }
    lemma_three_pieces(y, m, d, '-');
    lemma_lacks_joined(y, "-"@, ' ');
    lemma_lacks_joined(y + "-"@, m, ' ');
    lemma_lacks_joined(y + "-"@ + m, "-"@, ' ');
    lemma_lacks_joined(y + "-"@ + m + "-"@, d, ' ');
}

proof fn lemma_time_plain(secs: int)
    requires
        secs >= 0,
    ensures
        lacks(day_time(secs), ' '),
{
    let h = (secs % 86400 / 3600) as nat;
    let m = (secs % 3600 / 60) as nat;
    let s = (secs % 60) as nat;
    lemma_padded_plain(h, 2, ' ');
    lemma_padded_plain(m, 2, ' ');
    lemma_padded_plain(s, 2, ' ');
    reveal_strlit(":");
    lemma_lacks_joined(padded(h, 2), ":"@, ' ');
    lemma_lacks_joined(padded(h, 2) + ":"@, padded(m, 2), ' ');
    lemma_lacks_joined(padded(h, 2) + ":"@ + padded(m, 2), ":"@, ' ');
    lemma_lacks_joined(padded(h, 2) + ":"@ + padded(m, 2) + ":"@, padded(s, 2), ' ');
}

proof fn lemma_space()
    ensures
        " "@ == seq![' '],
{
    reveal_strlit(" ");
    assert(" "@ =~= seq![' ']);
}

/// A moment in UTC is its date and its time of day, with a space between them.
pub proof fn law_moment_is_read(secs: int)
    requires
        secs >= 0,
    ensures
        ({
            let date = date_of(secs / 86400);
            split_spec(utc_digits(secs), ' ') == seq![
                date_digits(date.year as nat, date.month as nat, date.day as nat),
                day_time(secs),
            ]
        }),
{
    let date = date_of(secs / 86400);
    let a = date_digits(date.year as nat, date.month as nat, date.day as nat);
    let b = day_time(secs);
    law_date_is_read(date.year as nat, date.month as nat, date.day as nat);
    lemma_time_plain(secs);
    lemma_space();
    lemma_split_first(a, ' ', b);
    lemma_split_first(b, ' ', b);
    assert(seq![a] + seq![b] =~= seq![a, b]);
}

/// A local time, read back, is its date and its time of day.
pub proof fn law_local_time_is_read(time: LocalTime)
    ensures
        ({
            let parts = split_spec(time.digits(), ' ');
            let clock = split_spec(parts[1], ':');
            &&& parts.len() == 2
            &&& parts[0] == date_digits(time.year as nat, time.month as nat, time.day as nat)
            &&& clock.len() == 3
            &&& uint_value(clock[0], 10, u64::MAX as int) == Some(time.hour as nat)
            &&& uint_value(clock[1], 10, u64::MAX as int) == Some(time.minute as nat)
            &&& uint_value(clock[2], 10, u64::MAX as int) == Some(time.second as nat)
        }),
{
    let a = date_digits(time.year as nat, time.month as nat, time.day as nat);
    let h = padded(time.hour as nat, 2);
    let m = padded(time.minute as nat, 2);
    let s = padded(time.second as nat, 2);
    law_date_is_read(time.year as nat, time.month as nat, time.day as nat);
    lemma_padded_is_read(time.hour as nat, 2, u64::MAX as int);
    lemma_padded_is_read(time.minute as nat, 2, u64::MAX as int);
    lemma_padded_is_read(time.second as nat, 2, u64::MAX as int);
    assert(lacks(h, ':') && lacks(m, ':') && lacks(s, ':'));
    assert(lacks(h, ' ') && lacks(m, ' ') && lacks(s, ' '));
    let colon = seq![':'];
    assert(":"@ == colon) by {
        reveal_strlit(":");
        assert(":"@ =~= colon);
    }
    lemma_space();
    let b = h + colon + m + colon + s;
    lemma_lacks_joined(h, colon, ' ');
    lemma_lacks_joined(h + colon, m, ' ');
    lemma_lacks_joined(h + colon + m, colon, ' ');
    lemma_lacks_joined(h + colon + m + colon, s, ' ');
    lemma_three_pieces(h, m, s, ':');
    assert(time.digits() =~= a + seq![' '] + b);
    lemma_split_first(a, ' ', b);
    lemma_split_first(b, ' ', b);
    assert(seq![a] + seq![b] =~= seq![a, b]);
}

/// The time of an entry is its local time where that is known. Otherwise it is its time in UTC,
/// and beyond the year 9999 the number of seconds.
pub proof fn law_time_of_an_entry(timestamp: u64, time: LocalTime)
    ensures
        entry_time(timestamp, Some(time)) == time.digits(),
        timestamp <= 253402300799 ==> entry_time(timestamp, None) == utc_digits(timestamp as int),
        timestamp > 253402300799 ==> uint_value(entry_time(timestamp, None), 10, u64::MAX as int)
            == Some(timestamp as nat),
{
    lemma_number_is_read(timestamp as nat, u64::MAX as int);
}

/// The name of a month in the date of a header.
pub open spec fn short_month(month: int) -> Seq<char> {
    seq![
        "Jan"@,
        "Feb"@,
        "Mar"@,
        "Apr"@,
        "May"@,
        "Jun"@,
        "Jul"@,
        "Aug"@,
        "Sep"@,
        "Oct"@,
        "Nov"@,
        "Dec"@,
    ][month - 1]
}

/// The name of a day of the week in the date of a header, some days after a Thursday.
pub open spec fn short_day(days: int) -> Seq<char> {
    seq!["Thu"@, "Fri"@, "Sat"@, "Sun"@, "Mon"@, "Tue"@, "Wed"@][days % 7]
}

proof fn lemma_names_plain(days: int, month: int)
    requires
        days >= 0,
        1 <= month <= 12,
    ensures
        lacks(short_day(days), ' '),
        lacks(short_month(month), ' '),
{
    reveal_strlit("Sun");
    reveal_strlit("Mon");
    reveal_strlit("Tue");
    reveal_strlit("Wed");
    reveal_strlit("Thu");
    reveal_strlit("Fri");
    reveal_strlit("Sat");
    reveal_strlit("Jan");
    reveal_strlit("Feb");
    reveal_strlit("Mar");
    reveal_strlit("Apr");
    reveal_strlit("May");
    reveal_strlit("Jun");
    reveal_strlit("Jul");
    reveal_strlit("Aug");
    reveal_strlit("Sep");
    reveal_strlit("Oct");
    reveal_strlit("Nov");
    reveal_strlit("Dec");
}

/// The names that dates are written with are these.
proof fn lemma_names(days: int, month: int)
    requires
        days >= 0,
        1 <= month <= 12,
    ensures
        day_name((days + 4) % 7) == short_day(days),
        month_name(month) == short_month(month),
{
    assert((days + 4) % 7 == (days % 7 + 4) % 7);
}

/// The date of a header, read back: the day of the week, which was a Thursday at the beginning of
/// 1970, the day, the month, the year, and the time of day.
#[verifier::rlimit(40)]
pub proof fn law_header_date_is_read(secs: int, date: Date)
    requires
        secs >= 0,
        date == date_of(secs / 86400),
        date.valid(),
    ensures
        ({
            let parts = split_spec(http_date(secs), ' ');
            &&& parts.len() == 6
            &&& parts[0] == short_day(secs / 86400) + seq![',']
            &&& uint_value(parts[1], 10, 31) == Some(date.day as nat)
            &&& parts[2] == short_month(date.month as int)
            &&& uint_value(parts[3], 10, u64::MAX as int) == Some(date.year as nat)
            &&& parts[4] == day_time(secs)
            &&& parts[5] == "GMT"@
        }),
{
    let days = secs / 86400;
    let name = short_day(days);
    let day = padded(date.day as nat, 2);
    let month = short_month(date.month as int);
    let year = decimal(date.year as nat);
    let time = day_time(secs);
    lemma_names_plain(days, date.month as int);
    lemma_padded_is_read(date.day as nat, 2, 31);
    lemma_number_is_read(date.year as nat, u64::MAX as int);
    lemma_time_plain(secs);
    lemma_space();
    assert(lacks(day, ' ') && lacks(year, ' '));
    let space = seq![' '];
    let front = name + seq![','];
    lemma_lacks_joined(name, seq![','], ' ');
    assert(", "@ == seq![','] + space) by {
        reveal_strlit(", ");
        assert(", "@ =~= seq![','] + space);
    }
    assert(" GMT"@ == space + "GMT"@ && lacks("GMT"@, ' ')) by {
        reveal_strlit(" GMT");
        reveal_strlit("GMT");
        assert(" GMT"@ =~= space + "GMT"@);
    }
    lemma_names(days, date.month as int);
    lemma_six_pieces(front, day, month, year, time, "GMT"@, ' ');
    assert(http_date(secs) =~= front + space + (day + space + (month + space + (year + space + (time
        + space + "GMT"@)))));
}

/// Six texts with one character between them are the six pieces between it.
proof fn lemma_six_pieces(
    a: Seq<char>,
    b: Seq<char>,
    c: Seq<char>,
    d: Seq<char>,
    e: Seq<char>,
    f: Seq<char>,
    sep: char,
)
    requires
        lacks(a, sep),
        lacks(b, sep),
        lacks(c, sep),
        lacks(d, sep),
        lacks(e, sep),
        lacks(f, sep),
    ensures
        split_spec(
            a + seq![sep] + (b + seq![sep] + (c + seq![sep] + (d + seq![sep] + (e + seq![sep]
                + f)))),
            sep,
        ) == seq![a, b, c, d, e, f],
{
    let s = seq![sep];
    lemma_split_first(a, sep, b + s + (c + s + (d + s + (e + s + f))));
    lemma_split_first(b, sep, c + s + (d + s + (e + s + f)));
    lemma_split_first(c, sep, d + s + (e + s + f));
    lemma_split_first(d, sep, e + s + f);
    lemma_split_first(e, sep, f);
    lemma_split_first(f, sep, f);
    assert(seq![a] + (seq![b] + (seq![c] + (seq![d] + (seq![e] + seq![f])))) =~= seq![
        a,
        b,
        c,
        d,
        e,
        f,
    ]);
}

} // verus!
