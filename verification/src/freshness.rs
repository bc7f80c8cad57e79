//! The age of the installed yt-dlp, read from its date-based version
//! (`YYYY.MM.DD`, optionally followed by `.` and a build number).

use vstd::prelude::*;

use crate::diagnostics::VersionFreshness;
use crate::text::{all_digits, chars_of, decimal_value, digits_value, trim, trim_vec};

verus! {

/// The proleptic Gregorian leap-year rule.
pub open spec fn is_leap_year(year: int) -> bool {
    year % 4 == 0 && (year % 100 != 0 || year % 400 == 0)
}

pub open spec fn days_in_month(year: int, month: int) -> int {
    if month == 2 {
        if is_leap_year(year) {
            29
        } else {
            28
        }
    } else if month == 4 || month == 6 || month == 9 || month == 11 {
        30
    } else {
        31
    }
}

/// Whether a year, month and day name a day of the calendar.
pub open spec fn is_calendar_date(year: int, month: int, day: int) -> bool {
    1 <= month <= 12 && 1 <= day <= days_in_month(year, month)
}

/// The Julian day number of a date of the proleptic Gregorian calendar: the
/// number of days since 24 November of the year -4713.
pub open spec fn day_number(year: int, month: int, day: int) -> int {
    let a = if month <= 2 {
        1int
    } else {
        0int
    };
    let y = year + 4800 - a;
    let m = month + 12 * a - 3;
    day + (153 * m + 2) / 5 + 365 * y + y / 4 - y / 100 + y / 400 - 32045
}

/// `time::Date::from_calendar_date(year, month, day)` followed by
/// `to_julian_day()`. For years 0 through 9999, which `time` always
/// represents, the crate's source shows that there is a date exactly when
/// the month is 1 to 12 and the day lies within that month of the Gregorian
/// calendar, and its documentation that the result is that date's Julian
/// day number.
#[verifier::external_body]
fn calendar_julian_day(year: i32, month: u8, day: u8) -> (r: Option<i32>)
    requires
        0 <= year <= 9999,
    ensures
        r is Some <==> is_calendar_date(year as int, month as int, day as int),
        r matches Some(j) ==> j == day_number(year as int, month as int, day as int),
{
    let month = time::Month::try_from(month).ok()?;
    time::Date::from_calendar_date(year, month, day).ok().map(|date| date.to_julian_day())
}

/// The date in a version such as `2024.03.10` or `2024.03.10.232844`,
/// after surrounding white space is removed.
pub open spec fn version_date(version: Seq<char>) -> Option<(int, int, int)> {
    let s = trim(version);
    if s.len() >= 10 && all_digits(s.subrange(0, 4)) && s[4] == '.' && all_digits(
        s.subrange(5, 7),
    ) && s[7] == '.' && all_digits(s.subrange(8, 10)) && (s.len() == 10 || s[10] == '.') {
        Some(
            (
                decimal_value(s.subrange(0, 4)) as int,
                decimal_value(s.subrange(5, 7)) as int,
                decimal_value(s.subrange(8, 10)) as int,
            ),
        )
    } else {
        None
    }
}

/// A release is old when more than 90 days separate it from today.
pub open spec fn age_freshness(release_day: int, today: int) -> VersionFreshness {
    if today - release_day > 90 {
        VersionFreshness::OlderThan90Days
    } else {
        VersionFreshness::Current
    }
}

/// The freshness of a version on a given day: unknown unless the version
/// names a calendar date.
pub open spec fn version_freshness_on(version: Seq<char>, today: int) -> VersionFreshness {
    match version_date(version) {
        None => VersionFreshness::Unknown,
        Some((y, m, d)) => if is_calendar_date(y, m, d) {
            age_freshness(day_number(y, m, d), today)
        } else {
            VersionFreshness::Unknown
        },
    }
}

/// Whether the version names a day that the calendar has.
pub open spec fn names_a_day(version: Seq<char>) -> bool {
    match version_date(version) {
        None => false,
        Some((y, m, d)) => is_calendar_date(y, m, d),
    }
}

/// The date of a yt-dlp version.
pub fn parse_version_date(version: &str) -> (r: Option<(u32, u32, u32)>)
    ensures
        match (r, version_date(version@)) {
            (Some((y, m, d)), Some((ys, ms, ds))) => y == ys && m == ms && d == ds,
            (None, None) => true,
            _ => false,
        },
        r matches Some((y, m, d)) ==> y < 10000 && m < 100 && d < 100,
{
    let raw = chars_of(version);
    let s = trim_vec(raw.as_slice());
    if s.len() < 10 || s[4] != '.' || s[7] != '.' || (s.len() > 10 && s[10] != '.') {
        return None;
    }
    let y = digits_value(s.as_slice(), 0, 4);
    let m = digits_value(s.as_slice(), 5, 7);
    let d = digits_value(s.as_slice(), 8, 10);
    match (y, m, d) {
        (Some(y), Some(m), Some(d)) => {
            proof {
                lemma_decimal_value_bound(s@.subrange(0, 4));
                lemma_decimal_value_bound(s@.subrange(5, 7));
                lemma_decimal_value_bound(s@.subrange(8, 10));
            }
            Some((y as u32, m as u32, d as u32))
        },
        _ => {
            proof {
                if all_digits(s@.subrange(0, 4)) {
                    lemma_decimal_value_bound(s@.subrange(0, 4));
                }
                if all_digits(s@.subrange(5, 7)) {
                    lemma_decimal_value_bound(s@.subrange(5, 7));
                }
                if all_digits(s@.subrange(8, 10)) {
                    lemma_decimal_value_bound(s@.subrange(8, 10));
                }
            }
            None
        },
    }
}

/// A string of `n` digits has a value below 10^n (here for n up to 4).
proof fn lemma_decimal_value_bound(s: Seq<char>)
    requires
        all_digits(s),
        s.len() <= 4,
    ensures
        decimal_value(s) < 10000,
        s.len() <= 3 ==> decimal_value(s) < 1000,
        s.len() <= 2 ==> decimal_value(s) < 100,
        s.len() <= 1 ==> decimal_value(s) < 10,
    decreases s.len(),
{
    if s.len() > 0 {
        let t = s.drop_last();
        assert(all_digits(t)) by {
            assert forall|i: int| 0 <= i < t.len() implies crate::text::is_ascii_digit(t[i]) by {
                assert(t[i] == s[i]);
            }
        }
        lemma_decimal_value_bound(t);
        assert(crate::text::is_ascii_digit(s[s.len() - 1]));
        assert(decimal_value(s) == decimal_value(t) * 10 + crate::text::digit_value(s.last()));
        assert(crate::text::digit_value(s.last()) <= 9);
    }
}

/// The age class of a release day seen from `today` (Julian day numbers).
pub fn freshness_from_days(release_day: i32, today: i32) -> (r: VersionFreshness)
    ensures
        r == age_freshness(release_day as int, today as int),
{
    if (today as i64) - (release_day as i64) > 90 {
        VersionFreshness::OlderThan90Days
    } else {
        VersionFreshness::Current
    }
}

/// The freshness of `version` on the Julian day `today`.
pub fn version_freshness(version: &str, today: i32) -> (r: VersionFreshness)
    ensures
        r == version_freshness_on(version@, today as int),
        r == VersionFreshness::Unknown <==> !names_a_day(version@),
{
    match parse_version_date(version) {
        None => VersionFreshness::Unknown,
        Some((y, m, d)) => {
            match calendar_julian_day(y as i32, m as u8, d as u8) {
                None => VersionFreshness::Unknown,
                Some(release) => freshness_from_days(release, today),
            }
        },
    }
}

/// The freshness of `version` today. Which of `Current` and
/// `OlderThan90Days` it is depends on the clock.
pub fn yt_dlp_freshness(version: &str) -> (r: VersionFreshness)
    ensures
        r == VersionFreshness::Unknown <==> !names_a_day(version@),
        exists|today: int| r == version_freshness_on(version@, today),
{
    let now = crate::clock::utc_now();
    let today = crate::clock::julian_day_of(&now);
    version_freshness(version, today)
}

/// Once a release counts as old it stays old on every later day, and
/// whether its age is known does not depend on the day.
pub proof fn lemma_old_stays_old(version: Seq<char>, day: int, later: int)
    requires
        day <= later,
    ensures
        version_freshness_on(version, day) == VersionFreshness::OlderThan90Days
            ==> version_freshness_on(version, later) == VersionFreshness::OlderThan90Days,
        (version_freshness_on(version, day) == VersionFreshness::Unknown) == (
        version_freshness_on(version, later) == VersionFreshness::Unknown),
{
}

} // verus!
