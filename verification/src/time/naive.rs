//! `NaiveLocal`: a calendar date and wall-clock time without a time zone,
//! following the proleptic Gregorian calendar, and `UtcTime`: an instant.

use vstd::prelude::*;
use crate::text::{decimal, digit, digit_char, push_padded, zero_pad};
use chrono::{Datelike, Timelike};

verus! {

/// Smallest year a calendar value can hold.
pub const MIN_YEAR: i32 = -262143;

/// Largest year a calendar value can hold.
pub const MAX_YEAR: i32 = 262142;

/// A date and wall-clock time with no time zone attached.
///
/// A leap second is held as `second == 59` with `nanosecond >= 1_000_000_000`.
#[derive(Debug, Clone, Copy, PartialEq, Eq)]
pub struct NaiveLocal {
    pub year: i32,
    pub month: u32,
    pub day: u32,
    pub hour: u32,
    pub minute: u32,
    pub second: u32,
    pub nanosecond: u32,
}

/// An instant: whole seconds since 1970-01-01T00:00:00Z plus a fraction.
/// As for `NaiveLocal`, a leap second carries `nanos >= 1_000_000_000`.
#[derive(Debug, Clone, Copy, PartialEq, Eq)]
pub struct UtcTime {
    pub secs: i64,
    pub nanos: u32,
}

pub open spec fn is_leap_year(y: int) -> bool {
    (y % 4 == 0 && y % 100 != 0) || y % 400 == 0
}

pub open spec fn days_in_month(y: int, m: int) -> int {
    if m == 2 {
        if is_leap_year(y) {
            29
        } else {
            28
        }
    } else if m == 4 || m == 6 || m == 9 || m == 11 {
        30
    } else {
        31
    }
}

pub open spec fn date_valid(y: int, m: int, d: int) -> bool {
    MIN_YEAR <= y <= MAX_YEAR && 1 <= m <= 12 && 1 <= d <= days_in_month(y, m)
}

pub open spec fn time_valid(h: int, mi: int, s: int, ns: int) -> bool {
    &&& 0 <= h < 24
    &&& 0 <= mi < 60
    &&& 0 <= s < 60
    &&& 0 <= ns < 2_000_000_000
    &&& ns >= 1_000_000_000 ==> s == 59
}

/// Days from 1970-01-01 to the given proleptic Gregorian date.
pub open spec fn days_from_civil(y: int, m: int, d: int) -> int {
    let yy = if m <= 2 {
        y - 1
    } else {
        y
    };
    let era = (yy + 400000) / 400 - 1000;
    let yoe = (yy + 400000) % 400;
    let mp = if m > 2 {
        m - 3
    } else {
        m + 9
    };
    let doy = (153 * mp + 2) / 5 + d - 1;
    let doe = yoe * 365 + yoe / 4 - yoe / 100 + doy;
    era * 146097 + doe - 719468
}

/// The calendar day after `(y, m, d)`: the next day of the month, else the first of the
/// next month, else New Year's Day of the next year.
pub open spec fn next_day(y: int, m: int, d: int) -> (int, int, int) {
    if d < days_in_month(y, m) {
        (y, m, d + 1)
    } else if m < 12 {
        (y, m + 1, 1)
    } else {
        (y + 1, 1, 1)
    }
}

/// Euclidean division and remainder of `x` by a positive constant `k`.
proof fn lemma_div_mod_const(x: int, k: int)
    requires
        k > 0,
    ensures
        x == k * (x / k) + x % k,
        0 <= x % k < k,
{
    vstd::arithmetic::div_mod::lemma_fundamental_div_mod(x, k);
    vstd::arithmetic::div_mod::lemma_mod_bound(x, k);
}

/// From the last day of February to March 1st.
proof fn lemma_days_march_first(y: int)
    requires
        MIN_YEAR <= y <= MAX_YEAR,
    ensures
        days_from_civil(y, 3, 1) == days_from_civil(y, 2, days_in_month(y, 2)) + 1,
{
    let s = y - 1 + 400000;
    lemma_div_mod_const(s, 400);
    lemma_div_mod_const(s + 1, 400);
    lemma_div_mod_const(y, 4);
    lemma_div_mod_const(y, 100);
    lemma_div_mod_const(y, 400);
    let q1 = s / 400;
    let r1 = s % 400;
    let q2 = (s + 1) / 400;
    let r2 = (s + 1) % 400;
    lemma_div_mod_const(r1, 4);
    lemma_div_mod_const(r1, 100);
    lemma_div_mod_const(r2, 4);
    lemma_div_mod_const(r2, 100);
    if r1 < 399 {
        assert(q2 == q1 && r2 == r1 + 1);
    } else {
        assert(q2 == q1 + 1 && r2 == 0);
    }
    // y = 400 * (q2 - 1000) + r2, so y's remainders by 4, 100 and 400 are r2's.
    assert(y == 400 * (q2 - 1000) + r2);
    assert(y % 4 == r2 % 4 && y % 100 == r2 % 100 && y % 400 == r2) by (nonlinear_arith)
        requires
            y == 400 * (q2 - 1000) + r2,
            0 <= r2 < 400,
            y == 4 * (y / 4) + y % 4,
            0 <= y % 4 < 4,
            y == 100 * (y / 100) + y % 100,
            0 <= y % 100 < 100,
            y == 400 * (y / 400) + y % 400,
            0 <= y % 400 < 400,
            r2 == 4 * (r2 / 4) + r2 % 4,
            0 <= r2 % 4 < 4,
            r2 == 100 * (r2 / 100) + r2 % 100,
            0 <= r2 % 100 < 100,
    ;
}

/// From the last day of a month other than February and December to the first of the next.
proof fn lemma_days_month_end(y: int, m: int)
    requires
        1 <= m < 12,
        m != 2,
    ensures
        days_from_civil(y, m + 1, 1) == days_from_civil(y, m, days_in_month(y, m)) + 1,
{
}

/// Law: the day count is tied to the calendar. 1970-01-01 is day 0, and the next calendar
/// day, across month ends, leap days and year ends, is exactly one day later.
pub proof fn lemma_days_from_civil_calendar(y: int, m: int, d: int)
    requires
        date_valid(y, m, d),
    ensures
        days_from_civil(1970, 1, 1) == 0,
        days_from_civil(next_day(y, m, d).0, next_day(y, m, d).1, next_day(y, m, d).2)
            == days_from_civil(y, m, d) + 1,
{
    if d < days_in_month(y, m) {
    } else if m == 2 {
        lemma_days_march_first(y);
    } else if m < 12 {
        lemma_days_month_end(y, m);
    } else {
    }
}

/// The wall-clock reading one second after `n` (outside leap seconds): the next second,
/// minute or hour, and after 23:59:59 midnight of the next calendar day.
pub open spec fn next_second(n: NaiveLocal) -> NaiveLocal {
    if n.second < 59 {
        NaiveLocal { second: (n.second + 1) as u32, ..n }
    } else if n.minute < 59 {
        NaiveLocal { minute: (n.minute + 1) as u32, second: 0, ..n }
    } else if n.hour < 23 {
        NaiveLocal { hour: (n.hour + 1) as u32, minute: 0, second: 0, ..n }
    } else {
        let (y2, m2, d2) = next_day(n.year as int, n.month as int, n.day as int);
        NaiveLocal { year: y2 as i32, month: m2 as u32, day: d2 as u32, hour: 0, minute: 0, second: 0, ..n }
    }
}

/// Law: the seconds count ticks with the clock: the reading one second later, across
/// minute, hour, day, month and year boundaries, counts exactly one second more.
pub proof fn lemma_secs_tick(n: NaiveLocal)
    requires
        n.valid(),
    ensures
        next_second(n).secs() == n.secs() + 1,
{
    if n.second == 59 && n.minute == 59 && n.hour == 23 {
        lemma_days_from_civil_calendar(n.year as int, n.month as int, n.day as int);
        let (y2, m2, d2) = next_day(n.year as int, n.month as int, n.day as int);
        assert(y2 as i32 as int == y2 && m2 as u32 as int == m2 && d2 as u32 as int == d2);
    }
}

/// Law: wall-clock seconds follow the calendar: 1970-01-01T00:00:00 is second 0, and the
/// same time of day on the next calendar day is exactly 86 400 seconds later.
pub proof fn lemma_secs_calendar(n: NaiveLocal)
    requires
        n.valid(),
    ensures
        (NaiveLocal { year: 1970, month: 1, day: 1, hour: 0, minute: 0, second: 0, nanosecond: 0 }).secs() == 0,
        ({
            let (y2, m2, d2) = next_day(n.year as int, n.month as int, n.day as int);
            (NaiveLocal { year: y2 as i32, month: m2 as u32, day: d2 as u32, ..n }).secs() == n.secs() + 86400
        }),
{
    lemma_days_from_civil_calendar(n.year as int, n.month as int, n.day as int);
    let (y2, m2, d2) = next_day(n.year as int, n.month as int, n.day as int);
    assert(y2 as i32 as int == y2 && m2 as u32 as int == m2 && d2 as u32 as int == d2);
}

impl NaiveLocal {
    pub open spec fn valid(self) -> bool {
        date_valid(self.year as int, self.month as int, self.day as int) && time_valid(
            self.hour as int,
            self.minute as int,
            self.second as int,
            self.nanosecond as int,
        )
    }

    /// Whole seconds from 1970-01-01T00:00:00 to this wall-clock time, counting no leap seconds.
    pub open spec fn secs(self) -> int {
        days_from_civil(self.year as int, self.month as int, self.day as int) * 86400
            + self.hour * 3600 + self.minute * 60 + self.second
    }

    /// Whether this is a real calendar date and time of day (a leap second only at `:59`).
    pub fn is_valid(&self) -> (r: bool)
        ensures
            r == self.valid(),
    {
        is_valid_date(self.year, self.month, self.day) && self.hour < 24 && self.minute < 60
            && self.second < 60 && self.nanosecond < 2_000_000_000 && (self.nanosecond
            < 1_000_000_000 || self.second == 59)
    }

    /// Executable `secs`.
    pub fn total_secs(&self) -> (r: i64)
        requires
            self.valid(),
        ensures
            r == self.secs(),
    {
        let m = self.month as i64;
        let yy: i64 = if m <= 2 {
            self.year as i64 - 1
        } else {
            self.year as i64
        };
        let shifted: i64 = yy + 400000;
        let era: i64 = shifted / 400 - 1000;
        let yoe: i64 = shifted % 400;
        let mp: i64 = if m > 2 {
            m - 3
        } else {
            m + 9
        };
        assert((153 * mp + 2) / 5 <= 337) by (nonlinear_arith)
            requires
                0 <= mp <= 11,
        ;
        let doy: i64 = (153 * mp + 2) / 5 + self.day as i64 - 1;
        let doe: i64 = yoe * 365 + yoe / 4 - yoe / 100 + doy;
        let days: i64 = era * 146097 + doe - 719468;
        days * 86400 + self.hour as i64 * 3600 + self.minute as i64 * 60 + self.second as i64
    }
}

pub fn is_leap(y: i32) -> (b: bool)
    requires
        MIN_YEAR <= y <= MAX_YEAR,
    ensures
        b == is_leap_year(y as int),
{
    let s: i64 = y as i64 + 400000;
    assert(s % 4 == (y as int) % 4 && s % 100 == (y as int) % 100 && s % 400 == (y as int) % 400)
        by (nonlinear_arith)
        requires
            s == y + 400000,
    ;
    (s % 4 == 0 && s % 100 != 0) || s % 400 == 0
}

pub fn month_days(y: i32, m: u32) -> (r: u32)
    requires
        MIN_YEAR <= y <= MAX_YEAR,
    ensures
        r == days_in_month(y as int, m as int),
{
    if m == 2 {
        if is_leap(y) {
            29
        } else {
            28
        }
    } else if m == 4 || m == 6 || m == 9 || m == 11 {
        30
    } else {
        31
    }
}

/// Checks a calendar date.
pub fn is_valid_date(y: i32, m: u32, d: u32) -> (b: bool)
    ensures
        b == date_valid(y as int, m as int, d as int),
{
    if y < MIN_YEAR || y > MAX_YEAR || m < 1 || m > 12 || d < 1 {
        return false;
    }
    d <= month_days(y, m)
}

/// Two-digit zero-padded text of `v < 100`.
pub open spec fn two_digits(v: int) -> Seq<char> {
    seq![digit_char(v / 10), digit_char(v % 10)]
}

/// `%Y`: four digits for years 0..=9999, otherwise an explicit sign and at least four digits.
pub open spec fn year_text(y: int) -> Seq<char> {
    if 0 <= y <= 9999 {
        zero_pad(decimal(y as nat), 4)
    } else if y < 0 {
        seq!['-'] + zero_pad(decimal((-y) as nat), 4)
    } else {
        seq!['+'] + zero_pad(decimal(y as nat), 4)
    }
}

/// Seconds field as printed by `%S`: a leap second prints as 60.
pub open spec fn printed_second(n: NaiveLocal) -> int {
    n.second + n.nanosecond / 1_000_000_000
}

/// `%Y-%m-%d %H:%M:%S`
pub open spec fn naive_text(n: NaiveLocal) -> Seq<char> {
    year_text(n.year as int) + seq!['-'] + two_digits(n.month as int) + seq!['-'] + two_digits(
        n.day as int,
    ) + seq![' '] + two_digits(n.hour as int) + seq![':'] + two_digits(n.minute as int) + seq![
        ':',
    ] + two_digits(printed_second(n))
}

/// `%Y-%m-%dT%H:%M:%SZ`
pub open spec fn iso_utc_text(n: NaiveLocal) -> Seq<char> {
    year_text(n.year as int) + seq!['-'] + two_digits(n.month as int) + seq!['-'] + two_digits(
        n.day as int,
    ) + seq!['T'] + two_digits(n.hour as int) + seq![':'] + two_digits(n.minute as int) + seq![
        ':',
    ] + two_digits(printed_second(n)) + seq!['Z']
}

/// `%Y%m%dT%H%M%SZ`
pub open spec fn compact_utc_text(n: NaiveLocal) -> Seq<char> {
    year_text(n.year as int) + two_digits(n.month as int) + two_digits(n.day as int) + seq!['T']
        + two_digits(n.hour as int) + two_digits(n.minute as int) + two_digits(printed_second(n))
        + seq!['Z']
}

pub fn push_two(s: &mut String, v: u32)
    requires
        v < 100,
    ensures
        final(s)@ == old(s)@ + two_digits(v as int),
{
    let t = digit((v / 10) as u64);
    let o = digit((v % 10) as u64);
    s.push(t);
    s.push(o);
    assert(final(s)@ =~= old(s)@ + two_digits(v as int));
}

pub fn push_year(s: &mut String, y: i32)
    ensures
        final(s)@ == old(s)@ + year_text(y as int),
{
    if 0 <= y && y <= 9999 {
        push_padded(s, y as u64, 4);
    } else if y < 0 {
        s.push('-');
        let a: i64 = -(y as i64);
        push_padded(s, a as u64, 4);
        assert(final(s)@ =~= old(s)@ + year_text(y as int));
    } else {
        s.push('+');
        push_padded(s, y as u64, 4);
        assert(final(s)@ =~= old(s)@ + year_text(y as int));
    }
}

fn push_printed_second(s: &mut String, n: &NaiveLocal)
    requires
        n.valid(),
    ensures
        final(s)@ == old(s)@ + two_digits(printed_second(*n)),
{
    let extra: u32 = if n.nanosecond >= 1_000_000_000 {
        1
    } else {
        0
    };
    assert(n.nanosecond / 1_000_000_000 == extra);
    push_two(s, n.second + extra);
}

/// Formats as `%Y-%m-%d %H:%M:%S`.
pub fn format_naive(n: &NaiveLocal) -> (r: String)
    requires
        n.valid(),
    ensures
        r@ == naive_text(*n),
{
    let mut s = String::new();
    push_year(&mut s, n.year);
    s.push('-');
    push_two(&mut s, n.month);
    s.push('-');
    push_two(&mut s, n.day);
    s.push(' ');
    push_two(&mut s, n.hour);
    s.push(':');
    push_two(&mut s, n.minute);
    s.push(':');
    push_printed_second(&mut s, n);
    assert(s@ =~= naive_text(*n));
    s
}

/// Formats as `%Y-%m-%dT%H:%M:%SZ`.
pub fn format_iso_utc(n: &NaiveLocal) -> (r: String)
    requires
        n.valid(),
    ensures
        r@ == iso_utc_text(*n),
{
    let mut s = String::new();
    push_year(&mut s, n.year);
    s.push('-');
    push_two(&mut s, n.month);
    s.push('-');
    push_two(&mut s, n.day);
    s.push('T');
    push_two(&mut s, n.hour);
    s.push(':');
    push_two(&mut s, n.minute);
    s.push(':');
    push_printed_second(&mut s, n);
    s.push('Z');
    assert(s@ =~= iso_utc_text(*n));
    s
}

/// Formats as `%Y%m%dT%H%M%SZ`.
pub fn format_compact_utc(n: &NaiveLocal) -> (r: String)
    requires
        n.valid(),
    ensures
        r@ == compact_utc_text(*n),
{
    let mut s = String::new();
    push_year(&mut s, n.year);
    push_two(&mut s, n.month);
    push_two(&mut s, n.day);
    s.push('T');
    push_two(&mut s, n.hour);
    push_two(&mut s, n.minute);
    push_printed_second(&mut s, n);
    s.push('Z');
    assert(s@ =~= compact_utc_text(*n));
    s
}

/// `t` names a calendar instant: some valid wall-clock value has its seconds and fraction.
pub open spec fn utc_representable(t: UtcTime) -> bool {
    exists|n: NaiveLocal| n.valid() && n.secs() == t.secs && n.nanosecond == t.nanos
}

/// `chrono::DateTime::<Utc>::from_timestamp(secs, nanos)` read back as calendar fields.
/// As the documentation states, the result is the date and time that lies `secs`
/// non-leap seconds after the epoch, with the given fraction; it exists whenever such a
/// calendar value exists.
#[verifier::external_body]
pub fn utc_to_civil(t: UtcTime) -> (r: Option<NaiveLocal>)
    ensures
        r matches Some(n) ==> n.valid() && n.secs() == t.secs && n.nanosecond == t.nanos,
        utc_representable(t) ==> r is Some,
{
    chrono::DateTime::from_timestamp(t.secs, t.nanos).map(|d| {
        let n = d.naive_utc();
        NaiveLocal {
            year: n.year(),
            month: n.month(),
            day: n.day(),
            hour: n.hour(),
            minute: n.minute(),
            second: n.second(),
            nanosecond: n.nanosecond(),
        }
    })
}

} // verus!
