//! Asia/Taipei (UTC+08:00) date helpers.
//!
//! Date filters handed to the LINE bridge are read in Asia/Taipei whatever
//! the host's time zone, so a date the user types means Taipei midnight,
//! not UTC midnight. Instants are Unix milliseconds; parsing and the
//! calendar are chrono's, the fixed offset and the wording are ours.

use crate::text::{chars_of, decimal, push_char, push_decimal, push_str};
use chrono::Datelike;
use vstd::prelude::*;

verus! {

/// Asia/Taipei as a fixed `+08:00` offset (Taiwan keeps no daylight saving).
pub const TAIPEI_OFFSET_HOURS: i32 = 8;

/// The same offset in milliseconds.
pub const TAIPEI_OFFSET_MS: i64 = 28_800_000;

/// The first millisecond chrono can represent: January 1, 262144 BCE, UTC.
pub const EARLIEST_MS: i64 = -8_334_601_228_800_000;

/// The last millisecond chrono can represent: December 31, 262142 CE,
/// 23:59:59.999 UTC.
pub const LATEST_MS: i64 = 8_210_266_876_799_999;

/// Milliseconds in a day.
pub const DAY_MS: i64 = 86_400_000;

/// The first millisecond of year 0 (0000-01-01T00:00:00Z).
pub const YEAR_ZERO_MS: i64 = -62_167_219_200_000;

/// The year of the day after chrono's last date, which chrono's own local
/// date reads past that date.
pub const YEAR_AFTER_LATEST: i32 = 262_143;

/// Whether `year` is a leap year of the proleptic Gregorian calendar.
pub open spec fn is_leap_year(year: int) -> bool {
    (year % 4 == 0 && year % 100 != 0) || year % 400 == 0
}

/// The number of days in a month.
pub open spec fn days_in_month(year: int, month: int) -> int {
    if month == 2 {
        if is_leap_year(year) {
            29
        } else {
            28
        }
    } else if month == 4 || month == 6 || month == 9 || month == 11 {
        30
    } else {
        31
    }
}

/// A date of the proleptic Gregorian calendar.
pub open spec fn valid_ymd(year: int, month: int, day: int) -> bool {
    1 <= month <= 12 && 1 <= day <= days_in_month(year, month)
}

/// What chrono's `NaiveDate::parse_from_str(s, "%Y-%m-%d")` makes of `s`:
/// the date as (year, month, day), or the text of the parse error.
pub uninterp spec fn ymd_parse_of(s: Seq<char>) -> Result<(i32, u32, u32), Seq<char>>;

/// The Unix milliseconds of 00:00 UTC on the given date, as chrono computes
/// them (`NaiveDate::from_ymd_opt`, `and_hms_opt(0, 0, 0)`, `and_utc`,
/// `timestamp_millis`); `None` where chrono has no such date.
pub uninterp spec fn utc_midnight_ms_of(year: i32, month: u32, day: u32) -> Option<i64>;

/// The UTC calendar date (year, month, day) of the instant `ms`, as chrono
/// computes it (`DateTime::from_timestamp_millis`); `None` out of range.
pub uninterp spec fn utc_date_of_ms(ms: i64) -> Option<(i32, u32, u32)>;

/// A parse outcome `r` of `s` that reads a valid date of years 0 to 9999,
/// written `YYYY-MM-DD` with zero padding, as that date.
pub open spec fn reads_padded_date(s: Seq<char>, r: Result<(i32, u32, u32), String>) -> bool {
    forall|y: int, m: int, d: int|
        0 <= y <= 9999 && valid_ymd(y, m, d) && s == #[trigger] date_text(y, m, d) ==> r
            == Ok::<(i32, u32, u32), String>((y as i32, m as u32, d as u32))
}

/// Parses `s` as `YYYY-MM-DD` with chrono's
/// `NaiveDate::parse_from_str(s, "%Y-%m-%d")` and reads the date's year,
/// month and day. The contract claims that the outcome, the date or the
/// error's text, is the named one for `s`, and that a valid date of years 0
/// to 9999 written `YYYY-MM-DD` with zero padding reads as that date.
#[verifier::external_body]
fn parse_ymd(s: &str) -> (r: Result<(i32, u32, u32), String>)
    ensures
        match r {
            Ok(v) => ymd_parse_of(s@) == Ok::<(i32, u32, u32), Seq<char>>(v),
            Err(e) => ymd_parse_of(s@) == Err::<(i32, u32, u32), Seq<char>>(e@),
        },
        reads_padded_date(s@, r),
{
    match chrono::NaiveDate::parse_from_str(s, "%Y-%m-%d") {
        Ok(date) => Ok((date.year(), date.month(), date.day())),
        Err(e) => Err(e.to_string()),
    }
}

/// Midnight UTC of a date, in Unix milliseconds, through chrono's
/// `NaiveDate::from_ymd_opt`, `and_hms_opt(0, 0, 0)`, `and_utc` and
/// `timestamp_millis`. The contract claims that the result is the named
/// one; that every valid date of chrono's years (262144 BCE to 262142 CE)
/// has one; that it lies in chrono's range, from year 0 on no earlier than
/// year 0's first instant; and that chrono reads the date back from it
/// (`from_timestamp_millis` round-trips `timestamp_millis`).
#[verifier::external_body]
fn utc_midnight_ms(year: i32, month: u32, day: u32) -> (r: Option<i64>)
    ensures
        r == utc_midnight_ms_of(year, month, day),
        r matches Some(v) ==> EARLIEST_MS <= v <= LATEST_MS,
        r matches Some(v) ==> utc_date_of_ms(v) == Some((year, month, day)),
        0 <= year ==> (r matches Some(v) ==> YEAR_ZERO_MS <= v),
        valid_ymd(year as int, month as int, day as int) && -262_143 <= year <= 262_142 ==> r is Some,
{
    match chrono::NaiveDate::from_ymd_opt(year, month, day) {
        Some(date) => match date.and_hms_opt(0, 0, 0) {
            Some(t) => Some(t.and_utc().timestamp_millis()),
            None => None,
        },
        None => None,
    }
}

/// The UTC calendar date of a Unix-millisecond instant, through chrono's
/// `DateTime::from_timestamp_millis` and the date's year, month and day.
/// The contract claims that the result is the named one, that chrono
/// represents every instant of its range, and that the date is a valid one
/// whose midnight is at most a day before the instant.
#[verifier::external_body]
fn utc_date(ms: i64) -> (r: Option<(i32, u32, u32)>)
    ensures
        r == utc_date_of_ms(ms),
        EARLIEST_MS <= ms <= LATEST_MS ==> r is Some,
        r matches Some((y, m, d)) ==> (valid_ymd(y as int, m as int, d as int) && (utc_midnight_ms_of(
            y,
            m,
            d,
        ) matches Some(v) && v <= ms < v + DAY_MS)),
{
    match chrono::DateTime::from_timestamp_millis(ms) {
        Some(t) => Some((t.year(), t.month(), t.day())),
        None => None,
    }
}

/// `digits` padded with leading zeros to at least `width` characters.
pub open spec fn zero_padded(digits: Seq<char>, width: int) -> Seq<char> {
    if digits.len() < width {
        Seq::new((width - digits.len()) as nat, |i: int| '0') + digits
    } else {
        digits
    }
}

/// A year as `{:04}` prints it: four digits at least, a minus sign counted
/// in the width.
pub open spec fn year_text(year: int) -> Seq<char> {
    if year < 0 {
        seq!['-'] + zero_padded(decimal((-year) as nat), 3)
    } else {
        zero_padded(decimal(year as nat), 4)
    }
}

/// A date as `YYYY-MM-DD`.
pub open spec fn date_text(year: int, month: int, day: int) -> Seq<char> {
    year_text(year) + seq!['-'] + zero_padded(decimal(month as nat), 2) + seq!['-'] + zero_padded(
        decimal(day as nat),
        2,
    )
}

/// What [`local_midnight_to_utc`] returns for `date`.
pub open spec fn local_midnight_of(date: Seq<char>) -> Result<i64, Seq<char>> {
    match ymd_parse_of(date) {
        Err(e) => Err("invalid date '"@ + date + "' (expected YYYY-MM-DD): "@ + e),
        Ok((y, m, d)) => match utc_midnight_ms_of(y, m, d) {
            None => Err("date '"@ + date + "' cannot be represented as midnight"@),
            Some(v) => if v - TAIPEI_OFFSET_MS < EARLIEST_MS {
                Err("date '"@ + date + "' is not a unique instant in Asia/Taipei"@)
            } else {
                Ok((v - TAIPEI_OFFSET_MS) as i64)
            },
        },
    }
}

/// Appends `n` in decimal, with leading zeros up to `width` digits.
fn push_zero_padded(out: &mut String, n: u64, width: usize)
    ensures
        final(out)@ == old(out)@ + zero_padded(decimal(n as nat), width as int),
{
    let mut digits = String::new();
    push_decimal(&mut digits, n);
    let v = chars_of(digits.as_str());
    let mut k: usize = v.len();
    while k < width
        invariant
            v.len() <= k,
            k <= width || k == v.len(),
            v@ == decimal(n as nat),
            out@ == old(out)@ + Seq::new((k - v.len()) as nat, |i: int| '0'),
        decreases width - k,
    {
        push_char(out, '0');
        proof {
            assert(out@ =~= old(out)@ + Seq::new((k + 1 - v.len()) as nat, |i: int| '0'));
        }
        k = k + 1;
    }
    push_str(out, digits.as_str());
    proof {
        if v.len() < width {
            assert(k == width);
        } else {
            assert(k == v.len());
            assert(Seq::new((k - v.len()) as nat, |i: int| '0') =~= Seq::<char>::empty());
        }
        assert(out@ =~= old(out)@ + zero_padded(decimal(n as nat), width as int));
    }
}

/// Formats a date as `YYYY-MM-DD`, the year as `{:04}` prints it.
pub fn format_date(year: i32, month: u32, day: u32) -> (r: String)
    ensures
        r@ == date_text(year as int, month as int, day as int),
{
    let mut out = String::new();
    if year < 0 {
        push_char(&mut out, '-');
        let magnitude: u64 = (-(year as i64)) as u64;
        push_zero_padded(&mut out, magnitude, 3);
    } else {
        push_zero_padded(&mut out, year as u64, 4);
    }
    push_char(&mut out, '-');
    push_zero_padded(&mut out, month as u64, 2);
    push_char(&mut out, '-');
    push_zero_padded(&mut out, day as u64, 2);
    proof {
        assert(out@ =~= date_text(year as int, month as int, day as int));
    }
    out
}

/// Converts a `YYYY-MM-DD` calendar date, read as midnight in Asia/Taipei,
/// to the matching UTC instant in Unix milliseconds. Fails with the parse
/// error's text where chrono does not read a date, and where Taipei
/// midnight of that date falls before the first instant chrono can
/// represent. Of a date it accepts, chrono reads back the same date at
/// the returned instant plus eight hours.
pub fn local_midnight_to_utc(date: &str) -> (r: Result<i64, String>)
    ensures
        match r {
            Ok(ms) => local_midnight_of(date@) == Ok::<i64, Seq<char>>(ms),
            Err(m) => local_midnight_of(date@) == Err::<i64, Seq<char>>(m@),
        },
        r is Err <== ymd_parse_of(date@) is Err,
        r matches Ok(ms) ==> (ymd_parse_of(date@) matches Ok(ymd) && utc_date_of_ms(
            (ms + TAIPEI_OFFSET_MS) as i64,
        ) == Some(ymd)),
        forall|y: int, m: int, d: int|
            0 <= y <= 9999 && valid_ymd(y, m, d) && date@ == #[trigger] date_text(y, m, d) ==> (
            utc_midnight_ms_of(y as i32, m as u32, d as u32) matches Some(v) && r == Ok::<
                i64,
                String,
            >((v - TAIPEI_OFFSET_MS) as i64) && local_date_text(v - TAIPEI_OFFSET_MS) == date@),
{
    match parse_ymd(date) {
        Err(e) => {
            let mut m = String::new();
            push_str(&mut m, "invalid date '");
            push_str(&mut m, date);
            push_str(&mut m, "' (expected YYYY-MM-DD): ");
            push_str(&mut m, e.as_str());
            proof {
                assert(m@ =~= "invalid date '"@ + date@ + "' (expected YYYY-MM-DD): "@ + e@);
            }
            Err(m)
        },
        Ok((y, mo, d)) => match utc_midnight_ms(y, mo, d) {
            None => {
                let mut m = String::new();
                push_str(&mut m, "date '");
                push_str(&mut m, date);
                push_str(&mut m, "' cannot be represented as midnight");
                proof {
                    assert(m@ =~= "date '"@ + date@ + "' cannot be represented as midnight"@);
                }
                Err(m)
            },
            Some(v) => {
                if v - TAIPEI_OFFSET_MS < EARLIEST_MS {
                    let mut m = String::new();
                    push_str(&mut m, "date '");
                    push_str(&mut m, date);
                    push_str(&mut m, "' is not a unique instant in Asia/Taipei");
                    proof {
                        assert(m@ =~= "date '"@ + date@
                            + "' is not a unique instant in Asia/Taipei"@);
                    }
                    Err(m)
                } else {
                    Ok(v - TAIPEI_OFFSET_MS)
                }
            },
        },
    }
}

/// The Asia/Taipei date, as `YYYY-MM-DD`, of a UTC instant in Unix
/// milliseconds: the UTC date eight hours later, or, past chrono's last
/// date, the day after it (January 1, 262143), as chrono's own local date
/// reads there.
pub open spec fn local_date_text(unix_ms: int) -> Seq<char> {
    let local = unix_ms + TAIPEI_OFFSET_MS;
    if local <= LATEST_MS {
        match utc_date_of_ms(local as i64) {
            Some((y, m, d)) => date_text(y as int, m as int, d as int),
            None => Seq::empty(),
        }
    } else {
        date_text(YEAR_AFTER_LATEST as int, 1, 1)
    }
}

/// The Asia/Taipei calendar date of a UTC instant in Unix milliseconds, as
/// `YYYY-MM-DD`. Up to chrono's last date it is a valid date whose Taipei
/// midnight is at most a day before the instant.
pub fn utc_to_local_date(unix_ms: i64) -> (r: String)
    requires
        EARLIEST_MS <= unix_ms <= LATEST_MS,
    ensures
        r@ == local_date_text(unix_ms as int),
        unix_ms + TAIPEI_OFFSET_MS <= LATEST_MS ==> (utc_date_of_ms(
            (unix_ms + TAIPEI_OFFSET_MS) as i64,
        ) matches Some((y, m, d)) && (r@ == date_text(y as int, m as int, d as int) && valid_ymd(
            y as int,
            m as int,
            d as int,
        ) && (utc_midnight_ms_of(y, m, d) matches Some(v) && v - TAIPEI_OFFSET_MS <= unix_ms < v
            - TAIPEI_OFFSET_MS + DAY_MS))),
{
    let local = unix_ms + TAIPEI_OFFSET_MS;
    if local > LATEST_MS {
        return format_date(YEAR_AFTER_LATEST, 1, 1);
    }
    match utc_date(local) {
        Some((y, m, d)) => format_date(y, m, d),
        None => {
            proof {
                assert(false);
            }
            String::new()
        },
    }
}

} // verus!
