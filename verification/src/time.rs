//! Verified calendar and wall-clock arithmetic: proleptic-Gregorian dates,
//! day numbers, RFC 3339 rendering and duration rendering.
//!
//! Instants are carried as integer nanoseconds since the Unix epoch; dates as
//! plain year, month and day fields with an explicit validity predicate.

use vstd::prelude::*;
use crate::strfmt::padded_dec;
use crate::strfmt::push_char;
use crate::strfmt::spec_dec_digits;
use crate::strfmt::spec_padded_dec;
use crate::strfmt::u128_to_string;
use vstd::string::StrSliceExecFns;
use vstd::string::StringExecFns;

verus! {

/// A calendar date in the proleptic Gregorian calendar.
#[derive(Clone, Copy, PartialEq, Eq, Structural, Debug)]
pub struct Date {
    pub year: u16,
    pub month: u8,
    pub day: u8,
}

pub open spec fn spec_is_leap_year(y: int) -> bool {
    (y % 4 == 0 && y % 100 != 0) || y % 400 == 0
}

pub open spec fn spec_year_days(y: int) -> int {
    if spec_is_leap_year(y) {
        366
    } else {
        365
    }
}

/// Days in all years before year `y`, counted from year 0.
pub open spec fn spec_days_before_year(y: int) -> int
    decreases y,
{
    if y <= 0 {
        0
    } else {
        spec_days_before_year(y - 1) + spec_year_days(y - 1)
    }
}

pub open spec fn spec_days_in_month(y: int, m: int) -> int {
    if m == 2 {
        if spec_is_leap_year(y) {
            29
        } else {
            28
        }
    } else if m == 4 || m == 6 || m == 9 || m == 11 {
        30
    } else {
        31
    }
}

/// Days in all months of year `y` before month `m`.
pub open spec fn spec_days_before_month(y: int, m: int) -> int
    decreases m,
{
    if m <= 1 {
        0
    } else {
        spec_days_before_month(y, m - 1) + spec_days_in_month(y, m - 1)
    }
}

impl Date {
    /// A valid calendar date with a four-digit year.
    pub open spec fn wf(self) -> bool {
        &&& self.year <= 9999
        &&& 1 <= self.month <= 12
        &&& 1 <= self.day <= spec_days_in_month(self.year as int, self.month as int)
    }
}

/// The day number of a date: days since 0000-01-01.
pub open spec fn spec_date_days(d: Date) -> int {
    spec_days_before_year(d.year as int) + spec_days_before_month(d.year as int, d.month as int)
        + d.day - 1
}

pub fn is_leap_year(y: u16) -> (r: bool)
    ensures
        r == spec_is_leap_year(y as int),
{
    (y % 4 == 0 && y % 100 != 0) || y % 400 == 0
}

pub fn days_in_month(y: u16, m: u8) -> (r: u8)
    requires
        1 <= m <= 12,
    ensures
        r == spec_days_in_month(y as int, m as int),
{
    if m == 2 {
        if is_leap_year(y) {
            29
        } else {
            28
        }
    } else if m == 4 || m == 6 || m == 9 || m == 11 {
        30
    } else {
        31
    }
}

/// Each year adds at least 365 and at most 366 days to the day count.
pub proof fn lemma_days_before_year_bounds(y1: int, y2: int)
    requires
        0 <= y1 <= y2,
    ensures
        spec_days_before_year(y1) + 365 * (y2 - y1) <= spec_days_before_year(y2)
            <= spec_days_before_year(y1) + 366 * (y2 - y1),
    decreases y2 - y1,
{
    if y1 < y2 {
        lemma_days_before_year_bounds(y1, y2 - 1);
    }
}

pub fn days_before_year(y: u16) -> (r: u32)
    requires
        y <= 10000,
    ensures
        r == spec_days_before_year(y as int),
{
    let mut acc: u32 = 0;
    let mut i: u16 = 0;
    while i < y
        invariant
            i <= y <= 10000,
            acc == spec_days_before_year(i as int),
            acc <= 366 * i,
        decreases y - i,
    {
        if is_leap_year(i) {
            acc += 366;
        } else {
            acc += 365;
        }
        i += 1;
    }
    acc
}

pub fn days_before_month(y: u16, m: u8) -> (r: u16)
    requires
        1 <= m <= 13,
    ensures
        r == spec_days_before_month(y as int, m as int),
{
    let mut acc: u16 = 0;
    let mut i: u8 = 1;
    while i < m
        invariant
            1 <= i <= m <= 13,
            acc == spec_days_before_month(y as int, i as int),
            acc <= 31 * i,
        decreases m - i,
    {
        acc += days_in_month(y, i) as u16;
        i += 1;
    }
    acc
}

/// The day number of a valid date.
pub fn date_days(d: &Date) -> (r: u32)
    requires
        d.wf(),
    ensures
        r == spec_date_days(*d),
{
    let by = days_before_year(d.year);
    let bm = days_before_month(d.year, d.month);
    proof {
        lemma_days_before_year_bounds(0, d.year as int);
    }
    by + bm as u32 + d.day as u32 - 1
}

/// The signed number of days from `b` to `a`.
pub fn days_between(a: &Date, b: &Date) -> (r: i64)
    requires
        a.wf(),
        b.wf(),
    ensures
        r == spec_date_days(*a) - spec_date_days(*b),
{
    let da = date_days(a);
    let db = date_days(b);
    proof {
        lemma_days_before_year_bounds(0, a.year as int);
        lemma_days_before_year_bounds(0, b.year as int);
    }
    da as i64 - db as i64
}

/// Day number of 1970-01-01, the epoch of all instants in this crate.
pub fn epoch_day_number() -> (r: u32)
    ensures
        r == spec_days_before_year(1970),
{
    days_before_year(1970)
}

/// A whole non-leap year fits in every month count.
proof fn lemma_year_days_is_month_sum(y: int)
    ensures
        spec_days_before_month(y, 13) == spec_year_days(y),
{
    reveal_with_fuel(spec_days_before_month, 14);
}

/// The date, after the epoch, with the given day number offset from the epoch.
pub fn date_from_epoch_day(epoch_day: u32) -> (d: Date)
    requires
        epoch_day <= 2000000,
    ensures
        d.wf(),
        spec_date_days(d) == epoch_day + spec_days_before_year(1970),
{
    let mut rem: u32 = epoch_day;
    let mut y: u16 = 1970;
    proof {
        lemma_days_before_year_bounds(1970, 9999);
    }
    let mut ylen: u32 = if is_leap_year(y) {
        366
    } else {
        365
    };
    while rem >= ylen
        invariant
            ylen == spec_year_days(y as int),
            epoch_day <= 2000000,
            1970 <= y,
            y < 9999,
            spec_days_before_year(y as int) + rem == spec_days_before_year(1970) + epoch_day,
            rem <= epoch_day,
        decreases rem,
    {
        rem -= ylen;
        y += 1;
        proof {
            lemma_days_before_year_bounds(1970, y as int);
            if y as int >= 9999 {
                lemma_days_before_year_bounds(1970, 9999);
                assert(false);
            }
        }
        ylen = if is_leap_year(y) {
            366
        } else {
            365
        };
    }
    proof {
        lemma_year_days_is_month_sum(y as int);
    }
    let mut m: u8 = 1;
    while rem >= days_in_month(y, m) as u32
        invariant
            1 <= m,
            m <= 12,
            spec_days_before_year(y as int) + spec_days_before_month(y as int, m as int) + rem
                == spec_days_before_year(1970) + epoch_day,
            rem < spec_year_days(y as int) - spec_days_before_month(y as int, m as int),
            spec_days_before_month(y as int, 13) == spec_year_days(y as int),
            y <= 9999,
        decreases 12 - m,
    {
        rem -= days_in_month(y, m) as u32;
        m += 1;
        proof {
            if m as int > 12 {
                assert(spec_days_before_month(y as int, 13) == spec_days_before_month(
                    y as int,
                    12,
                ) + spec_days_in_month(y as int, 12));
                assert(false);
            }
        }
    }
    Date { year: y, month: m, day: (rem + 1) as u8 }
}

/// One day in nanoseconds: the unit of the instant-to-date arithmetic.
pub const NANOS_PER_DAY: i64 = 86400000000000;

/// "S.NNNNNNNNNs": whole seconds, a dot, the nanosecond remainder padded to
/// nine digits, and a trailing `s`.
pub open spec fn spec_duration(nanos: int) -> Seq<char> {
    spec_dec_digits(nanos / 1000000000) + seq!['.'] + spec_padded_dec(nanos % 1000000000, 9) + seq![
        's',
    ]
}

/// Renders a duration of `nanos` nanoseconds.
pub fn format_duration(nanos: u128) -> (r: String)
    ensures
        r@ == spec_duration(nanos as int),
{
    let mut s = u128_to_string(nanos / 1000000000);
    push_char(&mut s, '.');
    let frac = padded_dec(nanos % 1000000000, 9);
    s.append(frac.as_str());
    push_char(&mut s, 's');
    proof {
        assert(s@ =~= spec_duration(nanos as int));
    }
    s
}

/// "YYYY-MM-DD" with zero padding.
pub open spec fn spec_date_dashes(d: Date) -> Seq<char> {
    spec_padded_dec(d.year as int, 4) + seq!['-'] + spec_padded_dec(d.month as int, 2) + seq![
        '-',
    ] + spec_padded_dec(d.day as int, 2)
}

pub fn format_date_dashes(d: &Date) -> (r: String)
    ensures
        r@ == spec_date_dashes(*d),
{
    let mut s = padded_dec(d.year as u128, 4);
    push_char(&mut s, '-');
    let m = padded_dec(d.month as u128, 2);
    s.append(m.as_str());
    push_char(&mut s, '-');
    let day = padded_dec(d.day as u128, 2);
    s.append(day.as_str());
    proof {
        assert(s@ =~= spec_date_dashes(*d));
    }
    s
}

/// "YYYY.MM.DD" with zero padding.
pub open spec fn spec_date_dots(d: Date) -> Seq<char> {
    spec_padded_dec(d.year as int, 4) + seq!['.'] + spec_padded_dec(d.month as int, 2) + seq![
        '.',
    ] + spec_padded_dec(d.day as int, 2)
}

pub fn format_date_dots(d: &Date) -> (r: String)
    ensures
        r@ == spec_date_dots(*d),
{
    let mut s = padded_dec(d.year as u128, 4);
    push_char(&mut s, '.');
    let m = padded_dec(d.month as u128, 2);
    s.append(m.as_str());
    push_char(&mut s, '.');
    let day = padded_dec(d.day as u128, 2);
    s.append(day.as_str());
    proof {
        assert(s@ =~= spec_date_dots(*d));
    }
    s
}

/// Months advance the day count by at least 28 days each.
pub proof fn lemma_days_before_month_mono(y: int, m1: int, m2: int)
    requires
        1 <= m1 <= m2 <= 13,
    ensures
        spec_days_before_month(y, m1) + 28 * (m2 - m1) <= spec_days_before_month(y, m2),
    decreases m2 - m1,
{
    if m1 < m2 {
        lemma_days_before_month_mono(y, m1, m2 - 1);
    }
}

/// A valid date is pinned by its day number.
pub proof fn lemma_date_days_injective(a: Date, b: Date)
    requires
        a.wf(),
        b.wf(),
        spec_date_days(a) == spec_date_days(b),
    ensures
        a == b,
{
    lemma_date_days_in_year_range(a);
    lemma_date_days_in_year_range(b);
    if a.year < b.year {
        lemma_days_before_year_bounds(a.year + 1, b.year as int);
        assert(false);
    }
    if b.year < a.year {
        lemma_days_before_year_bounds(b.year + 1, a.year as int);
        assert(false);
    }
    if a.month < b.month {
        lemma_days_before_month_mono(a.year as int, a.month + 1, b.month as int);
        assert(false);
    }
    if b.month < a.month {
        lemma_days_before_month_mono(a.year as int, b.month + 1, a.month as int);
        assert(false);
    }
}

/// A valid date's day number lies inside its year's and month's day range.
proof fn lemma_date_days_in_year_range(d: Date)
    requires
        d.wf(),
    ensures
        spec_days_before_year(d.year as int) <= spec_date_days(d),
        spec_date_days(d) < spec_days_before_year(d.year + 1),
        spec_days_before_year(d.year as int) + spec_days_before_month(d.year as int, d.month as int)
            <= spec_date_days(d),
        spec_date_days(d) < spec_days_before_year(d.year as int) + spec_days_before_month(
            d.year as int,
            d.month + 1,
        ),
{
    lemma_days_before_month_mono(d.year as int, 1, d.month as int);
    lemma_days_before_month_mono(d.year as int, d.month + 1, 13);
    lemma_year_days_is_month_sum(d.year as int);
}

/// The RFC 3339 rendering, at nanosecond precision in UTC, of the instant
/// with the given date and time-of-day components.
pub open spec fn spec_rfc3339_nanos(d: Date, hour: int, minute: int, second: int, nanos: int) -> Seq<
    char,
> {
    spec_date_dashes(d) + seq!['T'] + spec_padded_dec(hour, 2) + seq![':'] + spec_padded_dec(
        minute,
        2,
    ) + seq![':'] + spec_padded_dec(second, 2) + seq!['.'] + spec_padded_dec(nanos, 9) + seq!['Z']
}

/// The unique valid date whose day number matches the day of the instant `ts`
/// nanoseconds after the Unix epoch.
pub open spec fn spec_date_of_instant(ts: int) -> Date {
    choose|d: Date|
        d.wf() && spec_date_days(d) == ts / 86400000000000 + spec_days_before_year(1970)
}

/// The RFC 3339 rendering, at nanosecond precision in UTC, of the instant
/// `ts` nanoseconds after the Unix epoch.
pub open spec fn spec_rfc3339(ts: int) -> Seq<char> {
    spec_rfc3339_nanos(
        spec_date_of_instant(ts),
        ts % 86400000000000 / 3600000000000,
        ts % 3600000000000 / 60000000000,
        ts % 60000000000 / 1000000000,
        ts % 1000000000,
    )
}

/// Renders the instant `ts` nanoseconds after the Unix epoch as RFC 3339 at
/// nanosecond precision, e.g. `2025-11-05T01:02:03.000000004Z`.
pub fn rfc3339_nanos(ts: i64) -> (r: String)
    requires
        ts >= 0,
    ensures
        r@ == spec_rfc3339(ts as int),
{
    let day: i64 = ts / NANOS_PER_DAY;
    let in_day: i64 = ts % NANOS_PER_DAY;
    let hour: i64 = in_day / 3600000000000;
    let minute: i64 = ts % 3600000000000 / 60000000000;
    let second: i64 = ts % 60000000000 / 1000000000;
    let nanos: i64 = ts % 1000000000;
    let d = date_from_epoch_day(day as u32);
    let mut s = format_date_dashes(&d);
    push_char(&mut s, 'T');
    let p = padded_dec(hour as u128, 2);
    s.append(p.as_str());
    push_char(&mut s, ':');
    let p = padded_dec(minute as u128, 2);
    s.append(p.as_str());
    push_char(&mut s, ':');
    let p = padded_dec(second as u128, 2);
    s.append(p.as_str());
    push_char(&mut s, '.');
    let p = padded_dec(nanos as u128, 9);
    s.append(p.as_str());
    push_char(&mut s, 'Z');
    proof {
        assert(s@ =~= spec_rfc3339_nanos(
            d,
            ts as int % 86400000000000 / 3600000000000,
            ts as int % 3600000000000 / 60000000000,
            ts as int % 60000000000 / 1000000000,
            ts as int % 1000000000,
        ));
        let w = spec_date_of_instant(ts as int);
        assert(d.wf() && spec_date_days(d) == ts as int / 86400000000000 + spec_days_before_year(
            1970,
        ));
        lemma_date_days_injective(d, w);
    }
    s
}

} // verus!
