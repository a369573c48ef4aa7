//! Today's date as `YYYY-MM-DD` (UTC), computed from the Unix clock.
use vstd::prelude::*;
use crate::text::push_char;

verus! {

/// Gregorian leap year.
pub open spec fn is_leap(y: int) -> bool {
    y % 4 == 0 && (y % 100 != 0 || y % 400 == 0)
}

pub open spec fn days_in_year(y: int) -> int {
    if is_leap(y) { 366 } else { 365 }
}

/// Days in month `m` (1-based) of a year with the given leapness.
pub open spec fn days_in_month(m: int, leap: bool) -> int {
    if m == 2 {
        if leap { 29 } else { 28 }
    } else if m == 4 || m == 6 || m == 9 || m == 11 {
        30
    } else {
        31
    }
}

/// The year and day-of-year reached by counting `rem` days forward from 1 January of `y`.
pub open spec fn year_and_day(y: int, rem: int) -> (int, int)
    decreases rem,
{
    if rem < 0 || rem < days_in_year(y) {
        (y, rem)
    } else {
        year_and_day(y + 1, rem - days_in_year(y))
    }
}

/// The month and day-of-month (0-based) for day-of-year `rem`, starting the count at month `m`.
pub open spec fn month_and_day(m: int, rem: int, leap: bool) -> (int, int)
    decreases 13 - m,
{
    if m >= 13 || rem < days_in_month(m, leap) {
        (m, rem)
    } else {
        month_and_day(m + 1, rem - days_in_month(m, leap), leap)
    }
}

/// (year, month, day) of the day `days` after 1970-01-01.
pub open spec fn civil_from_days(days: int) -> (int, int, int) {
    let (y, r) = year_and_day(1970, days);
    let (m, d0) = month_and_day(1, r, is_leap(y));
    (y, m, d0 + 1)
}

/// Decimal digits of `n`.
pub open spec fn decimal(n: nat) -> Seq<char>
    decreases n,
{
    if n < 10 {
        seq![(48 + n) as char]
    } else {
        decimal(n / 10) + seq![(48 + n % 10) as char]
    }
}

/// `n` zero-padded to at least two digits.
pub open spec fn two_digits(n: nat) -> Seq<char> {
    if n < 10 { seq!['0'] + decimal(n) } else { decimal(n) }
}

/// `YYYY-MM-DD` of the day `days` after 1970-01-01.
pub open spec fn date_string(days: nat) -> Seq<char> {
    let (y, m, d) = civil_from_days(days as int);
    decimal(y as nat) + seq!['-'] + two_digits(m as nat) + seq!['-'] + two_digits(d as nat)
}

/// The decimal representation of a number.
pub fn decimal_string(n: u64) -> (s: String)
    ensures
        s@ == decimal(n as nat),
    decreases n,
{
    if n < 10 {
        let mut s = String::new();
        push_char(&mut s, ((48 + n) as u8) as char);
        s
    } else {
        let mut s = decimal_string(n / 10);
        push_char(&mut s, ((48 + n % 10) as u8) as char);
        s
    }
}

fn year_len(y: u64) -> (n: u64)
    ensures
        n == days_in_year(y as int),
{
    if y % 4 == 0 && (y % 100 != 0 || y % 400 == 0) { 366 } else { 365 }
}

fn month_len(m: u64, leap: bool) -> (n: u64)
    ensures
        n == days_in_month(m as int, leap),
{
    if m == 2 {
        if leap { 29 } else { 28 }
    } else if m == 4 || m == 6 || m == 9 || m == 11 {
        30
    } else {
        31
    }
}

/// The calendar date `days` days after 1970-01-01, as `YYYY-MM-DD`.
pub fn date_from_days(days: u64) -> (s: String)
    ensures
        s@ == date_string(days as nat),
{
    let mut y: u64 = 1970;
    let mut remaining: u64 = days;
    while remaining >= year_len(y)
        invariant
            1970 <= y,
            365 * (y - 1970) <= days - remaining,
            remaining <= days,
            year_and_day(1970, days as int) == year_and_day(y as int, remaining as int),
        decreases remaining,
    {
        let diy = year_len(y);
        remaining = remaining - diy;
        y = y + 1;
    }
    let leap = y % 4 == 0 && (y % 100 != 0 || y % 400 == 0);
    assert(remaining < 366);
    let ghost r0 = remaining;
    let mut m: u64 = 1;
    while m < 13 && remaining >= month_len(m, leap)
        invariant
            1 <= m <= 13,
            leap == is_leap(y as int),
            month_and_day(1, year_and_day(1970, days as int).1, leap) == month_and_day(
                m as int,
                remaining as int,
                leap,
            ),
            year_and_day(1970, days as int) == (y as int, r0 as int),
            remaining <= r0,
            r0 < 366,
        decreases 13 - m,
    {
        let dim = month_len(m, leap);
        remaining = remaining - dim;
        m = m + 1;
    }
    let d = remaining + 1;
    let mut s = decimal_string(y);
    push_char(&mut s, '-');
    if m < 10 {
        push_char(&mut s, '0');
    }
    let ms = decimal_string(m);
    s.append(ms.as_str());
    push_char(&mut s, '-');
    if d < 10 {
        push_char(&mut s, '0');
    }
    let ds = decimal_string(d);
    s.append(ds.as_str());
    s
}

/// Seconds since the Unix epoch, read from the system clock
/// (`SystemTime::now().duration_since(UNIX_EPOCH)`, zero if the clock is
/// before the epoch).  Nothing is claimed of the value.
#[verifier::external_body]
fn unix_seconds_now() -> u64 {
    std::time::SystemTime::now()
        .duration_since(std::time::UNIX_EPOCH)
        .unwrap_or_default()
        .as_secs()
}

/// Today's date (UTC) as `YYYY-MM-DD`.
pub fn chrono_today() -> (s: String)
    ensures
        exists|secs: u64| s@ == #[trigger] date_at_seconds(secs),
{
    let secs = unix_seconds_now();
    let s = date_from_days(secs / 86400);
    assert(s@ == date_at_seconds(secs));
    s
}

/// The date string of the day a Unix timestamp falls on.
pub open spec fn date_at_seconds(secs: u64) -> Seq<char> {
    date_string((secs / 86400) as nat)
}

} // verus!
