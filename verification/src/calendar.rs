//! The proleptic Gregorian calendar behind the report's timestamp: days
//! since 1970-01-01 to a date and back, and the `YYYY-MM-DD hh:mm:ss UTC` text.
use vstd::prelude::*;

use crate::text::push_char;
use crate::text::push_zero_padded;
use crate::text::zero_padded;

verus! {

/// Gregorian leap-year rule.
pub open spec fn is_leap_year(year: int) -> bool {
    (year % 4 == 0 && year % 100 != 0) || year % 400 == 0
}

/// Number of days in `month` (1 = January) of `year`.
pub open spec fn days_in_month(year: int, month: int) -> int {
    if month == 2 {
        if is_leap_year(year) { 29 } else { 28 }
    } else if month == 4 || month == 6 || month == 9 || month == 11 {
        30
    } else {
        31
    }
}

/// Leap years in the years 1 through `year` (a count relative to year 0 for any sign).
pub open spec fn leap_years_through(year: int) -> int {
    year / 4 - year / 100 + year / 400
}

/// Days from 1970-01-01 to January 1st of `year`.
pub open spec fn days_before_year(year: int) -> int {
    365 * (year - 1970) + leap_years_through(year - 1) - leap_years_through(1969)
}

/// Days from January 1st of `year` to the first day of `month`.
pub open spec fn days_before_month(year: int, month: int) -> int {
    let common: int = if month == 1 {
        0
    } else if month == 2 {
        31
    } else if month == 3 {
        59
    } else if month == 4 {
        90
    } else if month == 5 {
        120
    } else if month == 6 {
        151
    } else if month == 7 {
        181
    } else if month == 8 {
        212
    } else if month == 9 {
        243
    } else if month == 10 {
        273
    } else if month == 11 {
        304
    } else {
        334
    };
    common + if month > 2 && is_leap_year(year) { 1int } else { 0int }
}

/// The day number (days since 1970-01-01) of a Gregorian date.
pub open spec fn days_from_civil(year: int, month: int, day: int) -> int {
    days_before_year(year) + days_before_month(year, month) + day - 1
}

/// A real Gregorian calendar date.
pub open spec fn is_valid_date(year: int, month: int, day: int) -> bool {
    1 <= month <= 12 && 1 <= day <= days_in_month(year, month)
}

/// In a 400-year era counted from March 1st of year 0, whether the year that
/// begins on March 1st of year `year_of_era` ends with a February 29th.
spec fn march_year_has_leap_day(year_of_era: int) -> bool {
    let next = year_of_era + 1;
    next % 4 == 0 && (next % 100 != 0 || next == 400)
}

spec fn days_before_march_year(year_of_era: int) -> int {
    365 * year_of_era + year_of_era / 4 - year_of_era / 100
}

spec fn year_of_era_of(day_of_era: int) -> int {
    (day_of_era - day_of_era / 1460 + day_of_era / 36524 - day_of_era / 146096) / 365
}

proof fn lemma_year_of_era(day_of_era: int)
    requires
        0 <= day_of_era <= 146096,
    ensures
        0 <= year_of_era_of(day_of_era) <= 399,
        days_before_march_year(year_of_era_of(day_of_era)) <= day_of_era,
        day_of_era - days_before_march_year(year_of_era_of(day_of_era)) < 365 + if march_year_has_leap_day(year_of_era_of(day_of_era)) { 1int } else { 0int },
{
}

/// Days from March 1st to the first day of the month `month_prime` months
/// later (0 = March, 11 = February).
spec fn days_before_march_month(month_prime: int) -> int {
    (153 * month_prime + 2) / 5
}

proof fn lemma_month_of_year(day_of_year: int, leap: bool)
    requires
        0 <= day_of_year < 365 + if leap { 1int } else { 0int },
    ensures
        0 <= (5 * day_of_year + 2) / 153 <= 11,
        ({
            let month_prime = (5 * day_of_year + 2) / 153;
            let day = day_of_year - days_before_march_month(month_prime) + 1;
            let month = if month_prime < 10 { month_prime + 3 } else { month_prime - 9 };
            &&& 1 <= day
            &&& day <= if month == 2 {
                if leap { 29int } else { 28int }
            } else if month == 4 || month == 6 || month == 9 || month == 11 {
                30
            } else {
                31
            }
        }),
{
}

/// One more leap year is counted through `year` than through `year - 1`
/// exactly when `year` is a leap year.
proof fn lemma_leap_step(year: int)
    ensures
        leap_years_through(year) - leap_years_through(year - 1) == if is_leap_year(year) { 1int } else { 0int },
{
}

/// Leap years repeat with the 400-year era.
proof fn lemma_leap_in_era(era: int, year_of_era: int)
    requires
        0 <= year_of_era <= 399,
    ensures
        is_leap_year(400 * era + year_of_era + 1) == march_year_has_leap_day(year_of_era),
        leap_years_through(400 * era + year_of_era) == 97 * era + leap_years_through(year_of_era),
{
}

/// The date assembled from an era, a year of the era and a day of that year
/// (all counted from March 1st) is the date of day `shifted - 719_468`.
proof fn lemma_assembled_date(
    shifted: int,
    era: int,
    year_of_era: int,
    day_of_year: int,
    month_prime: int,
    day: int,
    month: int,
    year: int,
)
    requires
        0 <= year_of_era <= 399,
        0 <= day_of_year < 365 + if march_year_has_leap_day(year_of_era) { 1int } else { 0int },
        shifted == 146_097 * era + days_before_march_year(year_of_era) + day_of_year,
        month_prime == (5 * day_of_year + 2) / 153,
        day == day_of_year - days_before_march_month(month_prime) + 1,
        month == if month_prime < 10 { month_prime + 3 } else { month_prime - 9 },
        year == 400 * era + year_of_era + if month <= 2 { 1int } else { 0int },
    ensures
        is_valid_date(year, month, day),
        days_from_civil(year, month, day) == shifted - 719_468,
{
    let march_year = 400 * era + year_of_era;
    lemma_month_of_year(day_of_year, march_year_has_leap_day(year_of_era));
    lemma_leap_in_era(era, year_of_era);
    lemma_leap_step(march_year);
    lemma_leap_step(march_year + 1);
    assert(leap_years_through(1969) == 477);
    if month <= 2 {
        assert(year == march_year + 1);
        assert(days_before_year(year) == 365 * march_year + leap_years_through(march_year) - 719_162);
    } else {
        assert(year == march_year);
        assert(days_before_year(year) == 365 * march_year + leap_years_through(march_year - 1) - 719_527);
    }
}

/// Converts a count of days since 1970-01-01 (negative before it) into a
/// proleptic Gregorian `(year, month, day)`, month and day counted from 1.
pub fn civil_date_from_unix_days(unix_days: i64) -> (date: (i64, i64, i64))
    requires
        unix_days <= i64::MAX - 719_468,
    ensures
        is_valid_date(date.0 as int, date.1 as int, date.2 as int),
        days_from_civil(date.0 as int, date.1 as int, date.2 as int) == unix_days,
{
    let shifted = unix_days + 719_468;

    let era = if shifted >= 0 {
        shifted
    } else {
        shifted - 146_096
    } / 146_097;

    assert(era == shifted as int / 146_097);

    let day_of_era = shifted - era * 146_097;

    proof {
        lemma_year_of_era(day_of_era as int);
    }

    let year_of_era = (
        day_of_era
            - day_of_era / 1460
            + day_of_era / 36_524
            - day_of_era / 146_096
    ) / 365;

    assert(year_of_era == year_of_era_of(day_of_era as int));

    let mut year = year_of_era + era * 400;

    let day_of_year = day_of_era
        - (
            365 * year_of_era
                + year_of_era / 4
                - year_of_era / 100
        );

    proof {
        lemma_month_of_year(day_of_year as int, march_year_has_leap_day(year_of_era as int));
    }

    let month_prime = (5 * day_of_year + 2) / 153;
    let day =
        day_of_year - (153 * month_prime + 2) / 5 + 1;

    let month =
        month_prime + if month_prime < 10 { 3 } else { -9 };

    if month <= 2 {
        year += 1;
    }

    proof {
        lemma_assembled_date(
            shifted as int,
            era as int,
            year_of_era as int,
            day_of_year as int,
            month_prime as int,
            day as int,
            month as int,
            year as int,
        );
    }

    (year, month, day)
}

/// Within a year, the day of the year of a valid date lies in the year.
proof fn lemma_day_of_year_bounds(year: int, month: int, day: int)
    requires
        is_valid_date(year, month, day),
    ensures
        0 <= days_before_month(year, month) + day - 1,
        days_before_month(year, month) + day - 1 < days_before_year(year + 1) - days_before_year(year),
{
    lemma_leap_step(year);
}

/// Later years start later.
proof fn lemma_days_before_year_increases(earlier: int, later: int)
    requires
        earlier < later,
    ensures
        days_before_year(earlier + 1) <= days_before_year(later),
{
    assert(leap_years_through(earlier) <= leap_years_through(later - 1));
}

/// Distinct valid dates have distinct day numbers: a day number names at most one date.
pub proof fn lemma_days_from_civil_injective(
    year1: int,
    month1: int,
    day1: int,
    year2: int,
    month2: int,
    day2: int,
)
    requires
        is_valid_date(year1, month1, day1),
        is_valid_date(year2, month2, day2),
        days_from_civil(year1, month1, day1) == days_from_civil(year2, month2, day2),
    ensures
        year1 == year2,
        month1 == month2,
        day1 == day2,
{
    lemma_day_of_year_bounds(year1, month1, day1);
    lemma_day_of_year_bounds(year2, month2, day2);
    if year1 < year2 {
        lemma_days_before_year_increases(year1, year2);
    } else if year2 < year1 {
        lemma_days_before_year_increases(year2, year1);
    }
    assert(year1 == year2);
}

/// A valid date whose day number is not negative is in 1970 or later.
proof fn lemma_year_from_nonnegative_day(year: int, month: int, day: int)
    requires
        is_valid_date(year, month, day),
        days_from_civil(year, month, day) >= 0,
    ensures
        year >= 1970,
{
    lemma_day_of_year_bounds(year, month, day);
    if year < 1970 {
        lemma_days_before_year_increases(year, 1970);
    }
}

/// `YYYY-MM-DD hh:mm:ss UTC` for a date and a second of that day, each field
/// zero-padded to its width (the year to at least four digits).
pub open spec fn timestamp_text(year: nat, month: nat, day: nat, second_of_day: nat) -> Seq<char> {
    zero_padded(year, 4) + seq!['-'] + zero_padded(month, 2) + seq!['-'] + zero_padded(day, 2)
        + seq![' '] + zero_padded(second_of_day / 3600, 2) + seq![':']
        + zero_padded((second_of_day % 3600) / 60, 2) + seq![':'] + zero_padded(second_of_day % 60, 2)
        + seq![' ', 'U', 'T', 'C']
}

/// The timestamp text of the instant `total_seconds` after 1970-01-01 00:00:00 UTC:
/// the date of its day, then the time within that day.
pub open spec fn is_timestamp_of(text: Seq<char>, total_seconds: nat) -> bool {
    exists|year: nat, month: nat, day: nat|
        is_valid_date(year as int, month as int, day as int)
            && #[trigger] days_from_civil(year as int, month as int, day as int) == total_seconds / 86_400
            && text == timestamp_text(year, month, day, total_seconds % 86_400)
}

/// Formats a count of seconds since the Unix epoch as `YYYY-MM-DD hh:mm:ss UTC`.
pub fn format_utc_timestamp(total_seconds: u64) -> (text: String)
    requires
        total_seconds <= i64::MAX,
    ensures
        is_timestamp_of(text@, total_seconds as nat),
{
    let days = (total_seconds / 86_400) as i64;
    let seconds_in_day = total_seconds % 86_400;

    let hour = seconds_in_day / 3600;
    let minute = (seconds_in_day % 3600) / 60;
    let second = seconds_in_day % 60;

    let (year, month, day) = civil_date_from_unix_days(days);
    proof {
        lemma_year_from_nonnegative_day(year as int, month as int, day as int);
    }

    let mut text = String::new();
    push_zero_padded(&mut text, year as u64, 4);
    push_char(&mut text, '-');
    push_zero_padded(&mut text, month as u64, 2);
    push_char(&mut text, '-');
    push_zero_padded(&mut text, day as u64, 2);
    push_char(&mut text, ' ');
    push_zero_padded(&mut text, hour, 2);
    push_char(&mut text, ':');
    push_zero_padded(&mut text, minute, 2);
    push_char(&mut text, ':');
    push_zero_padded(&mut text, second, 2);
    push_char(&mut text, ' ');
    push_char(&mut text, 'U');
    push_char(&mut text, 'T');
    push_char(&mut text, 'C');
    assert(text@ =~= timestamp_text(year as nat, month as nat, day as nat, seconds_in_day as nat));
    assert(days_from_civil(year as nat as int, month as nat as int, day as nat as int) == total_seconds / 86_400);
    text
}

} // verus!
