use vstd::prelude::*;
use chrono::Datelike;
use crate::decimal::{decimal_text, digit_char};

verus! {

/// A calendar date.
#[derive(PartialEq, Eq, Structural, Debug, Copy, Clone)]
pub struct Date {
    pub year: i32,
    pub month: u32,
    pub day: u32,
}

pub open spec fn is_leap_year(y: int) -> bool {
    (y % 4 == 0 && y % 100 != 0) || y % 400 == 0
}

pub open spec fn days_in_month(y: int, m: int) -> int {
    if m == 2 {
        if is_leap_year(y) {
            29
        } else {
            28
        }
    } else if m == 4 || m == 6 || m == 9 || m == 11 {
        30
    } else {
        31
    }
}

/// A date of the proleptic Gregorian calendar within the years that chrono's `NaiveDate`
/// represents.
pub open spec fn valid_date(d: Date) -> bool {
    &&& -262143 <= d.year <= 262142
    &&& 1 <= d.month <= 12
    &&& 1 <= d.day <= days_in_month(d.year as int, d.month as int)
}

/// All dates of the option are valid.
pub open spec fn valid_opt(d: Option<Date>) -> bool {
    d matches Some(x) ==> valid_date(x)
}

/// What chrono's `NaiveDate::parse_from_str(s, "%Y%m%d")` gives, when it succeeds.
pub uninterp spec fn compact_date(s: Seq<char>) -> Option<Date>;

/// What chrono's `NaiveDate::parse_from_str(s, "%Y-%m-%d")` gives, when it succeeds.
pub uninterp spec fn iso_date(s: Seq<char>) -> Option<Date>;

/// A number below 100 as two digits.
pub open spec fn two_digits(n: int) -> Seq<char> {
    seq![digit_char((n / 10) as nat), digit_char((n % 10) as nat)]
}

/// A number below 10000 as four digits.
pub open spec fn four_digits(n: int) -> Seq<char> {
    two_digits(n / 100) + two_digits(n % 100)
}

/// How chrono writes a year: four digits from 0 to 9999; outside them, a sign and at least
/// four digits.
pub open spec fn year_text(y: int) -> Seq<char> {
    if 0 <= y <= 9999 {
        four_digits(y)
    } else {
        let a = if y < 0 {
            -y
        } else {
            y
        };
        (if y < 0 {
            seq!['-']
        } else {
            seq!['+']
        }) + (if a <= 9999 {
            four_digits(a)
        } else {
            decimal_text(a as nat)
        })
    }
}

/// What chrono's `NaiveDate::format("%Y%m%d")` writes: the year, then the month and the day
/// as two digits each.
pub open spec fn compact_date_text(d: Date) -> Seq<char> {
    year_text(d.year as int) + two_digits(d.month as int) + two_digits(d.day as int)
}

/// What chrono writes for a `NaiveDate` with `Display`: the year, the month and the day as
/// two digits each, joined by '-'.
pub open spec fn iso_date_text(d: Date) -> Seq<char> {
    year_text(d.year as int) + seq!['-'] + two_digits(d.month as int) + seq!['-'] + two_digits(d.day as int)
}

/// Today's date in UTC.
/// Trusted: `chrono::Utc::now()` gives the current time and `date_naive` its date; a
/// `NaiveDate` is always a valid date. Which date comes back depends on the clock.
#[verifier::external_body]
pub(crate) fn today() -> (d: Date)
    ensures
        valid_date(d),
{
    let n = chrono::Utc::now().date_naive();
    Date { year: n.year(), month: n.month(), day: n.day() }
}

/// Today's date on the local clock.
/// Trusted: `chrono::Local::now()` gives the current local time and `date_naive` its date; a
/// `NaiveDate` is always a valid date. Which date comes back depends on the clock and the
/// machine's time zone.
#[verifier::external_body]
pub(crate) fn local_today() -> (d: Date)
    ensures
        valid_date(d),
{
    let n = chrono::Local::now().date_naive();
    Date { year: n.year(), month: n.month(), day: n.day() }
}

/// Parses a date written as year, month and day digits (`%Y%m%d`).
/// Trusted: calls `chrono::NaiveDate::parse_from_str(s, "%Y%m%d")`; its result, a valid date
/// when there is one, is named `compact_date`.
#[verifier::external_body]
pub(crate) fn parse_compact_date(s: &str) -> (r: Option<Date>)
    ensures
        r == compact_date(s@),
        valid_opt(r),
{
    chrono::NaiveDate::parse_from_str(s, "%Y%m%d").ok().map(
        |n| Date { year: n.year(), month: n.month(), day: n.day() },
    )
}

/// Parses a date written as year, month and day joined by '-' (`%Y-%m-%d`).
/// Trusted: calls `chrono::NaiveDate::parse_from_str(s, "%Y-%m-%d")`; its result, a valid date
/// when there is one, is named `iso_date`.
#[verifier::external_body]
pub(crate) fn parse_iso_date(s: &str) -> (r: Option<Date>)
    ensures
        r == iso_date(s@),
        valid_opt(r),
{
    chrono::NaiveDate::parse_from_str(s, "%Y-%m-%d").ok().map(
        |n| Date { year: n.year(), month: n.month(), day: n.day() },
    )
}

/// Writes a date as year, month and day digits (`%Y%m%d`).
/// Trusted: calls chrono's `NaiveDate::from_ymd_opt`, which succeeds on valid dates, and
/// `format("%Y%m%d")`, whose `%Y` writes four zero-padded digits for the years 0 to 9999 and
/// otherwise a sign and at least four digits, and whose `%m` and `%d` write two zero-padded
/// digits (see `compact_date_text`).
#[verifier::external_body]
pub(crate) fn format_compact_date(d: Date) -> (s: String)
    requires
        valid_date(d),
    ensures
        s@ == compact_date_text(d),
{
    match chrono::NaiveDate::from_ymd_opt(d.year, d.month, d.day) {
        Some(n) => n.format("%Y%m%d").to_string(),
        None => String::new(),
    }
}

/// Writes a date as chrono's `Display` does (`2023-06-30`).
/// Trusted: calls chrono's `NaiveDate::from_ymd_opt`, which succeeds on valid dates, and
/// `to_string`; `Display` writes the year as `%Y` does, then '-', the month, '-' and the day,
/// two zero-padded digits each (see `iso_date_text`).
#[verifier::external_body]
pub(crate) fn format_iso_date(d: Date) -> (s: String)
    requires
        valid_date(d),
    ensures
        s@ == iso_date_text(d),
{
    match chrono::NaiveDate::from_ymd_opt(d.year, d.month, d.day) {
        Some(n) => n.to_string(),
        None => String::new(),
    }
}

} // verus!
