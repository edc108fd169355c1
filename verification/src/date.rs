//! Civil-date arithmetic for timestamp display: turning a day count since
//! the epoch into a calendar date. The contract pins the result exactly:
//! the returned date is valid and maps back to the given day count.

use vstd::prelude::*;

verus! {

/// The Gregorian leap-year rule.
pub open spec fn is_leap(y: int) -> bool {
    (y % 4 == 0 && y % 100 != 0) || y % 400 == 0
}

pub open spec fn days_in_year(y: int) -> int {
    if is_leap(y) {
        366
    } else {
        365
    }
}

/// Days from the epoch date to the first day of year `y`.
pub open spec fn days_before_year(y: int) -> int
    decreases y - 1970,
{
    if y <= 1970 {
        0
    } else {
        days_before_year(y - 1) + days_in_year(y - 1)
    }
}

/// The length of month `m` (1-based) in year `y`.
pub open spec fn days_in_month(y: int, m: int) -> int {
    if m == 2 {
        if is_leap(y) {
            29
        } else {
            28
        }
    } else if m == 4 || m == 6 || m == 9 || m == 11 {
        30
    } else {
        31
    }
}

/// Days from the first day of year `y` to the first day of its month `m`.
pub open spec fn days_before_month(y: int, m: int) -> int
    decreases m,
{
    if m <= 1 {
        0
    } else {
        days_before_month(y, m - 1) + days_in_month(y, m - 1)
    }
}

pub open spec fn valid_date(y: int, m: int, d: int) -> bool {
    y >= 1970 && 1 <= m <= 12 && 1 <= d <= days_in_month(y, m)
}

/// The day count since the epoch of a calendar date.
pub open spec fn days_from_civil(y: int, m: int, d: int) -> int {
    days_before_year(y) + days_before_month(y, m) + (d - 1)
}

/// A year takes at least 365 days on the calendar.
proof fn lemma_days_before_year_lower(y: int)
    requires
        y >= 1970,
    ensures
        days_before_year(y) >= (y - 1970) * 365,
    decreases y - 1970,
{
    if y > 1970 {
        lemma_days_before_year_lower(y - 1);
        assert((y - 1970) * 365 == (y - 1 - 1970) * 365 + 365) by (nonlinear_arith);
    }
}

/// The months of a year sum to its length.
proof fn lemma_months_cover_year(y: int)
    ensures
        days_before_month(y, 13) == days_in_year(y),
{
    reveal_with_fuel(days_before_month, 13);
}

pub fn is_leap_year(year: u64) -> (r: bool)
    ensures
        r == is_leap(year as int),
{
    (year % 4 == 0 && year % 100 != 0) || year % 400 == 0
}

fn days_in_month_exec(year: u64, month: u64) -> (r: u64)
    requires
        1 <= month <= 12,
    ensures
        r == days_in_month(year as int, month as int),
{
    if month == 2 {
        if is_leap_year(year) {
            29
        } else {
            28
        }
    } else if month == 4 || month == 6 || month == 9 || month == 11 {
        30
    } else {
        31
    }
}

/// The calendar date of a day count since the epoch: year, month (1-based)
/// and day (1-based). Exact: the date is valid and maps back to `days`.
pub fn civil_from_days(days: u64) -> (r: (u64, u64, u64))
    ensures
        valid_date(r.0 as int, r.1 as int, r.2 as int),
        days_from_civil(r.0 as int, r.1 as int, r.2 as int) == days as int,
{
    let mut year: u64 = 1970;
    let mut rem: u64 = days;
    loop
        invariant
            year >= 1970,
            days_before_year(year as int) + rem == days as int,
        ensures
            year >= 1970,
            days_before_year(year as int) + rem == days as int,
            rem < days_in_year(year as int),
        decreases rem,
    {
        let diy: u64 = if is_leap_year(year) {
            366
        } else {
            365
        };
        if rem < diy {
            break ;
        }
        proof {
            lemma_days_before_year_lower(year as int);
            assert((year - 1970) * 365 <= days as int) by (nonlinear_arith)
                requires
                    (year - 1970) * 365 <= days_before_year(year as int),
                    days_before_year(year as int) <= days as int,
            ;
            assert(year - 1970 <= days as int) by (nonlinear_arith)
                requires
                    (year - 1970) * 365 <= days as int,
                    year >= 1970,
            ;
        }
        rem = rem - diy;
        year = year + 1;
    }
    let mut month: u64 = 1;
    loop
        invariant
            1 <= month <= 12,
            days_before_month(year as int, month as int) + rem == days as int - days_before_year(
                year as int,
            ),
            days as int - days_before_year(year as int) < days_in_year(year as int),
        ensures
            1 <= month <= 12,
            days_before_month(year as int, month as int) + rem == days as int - days_before_year(
                year as int,
            ),
            rem < days_in_month(year as int, month as int),
        decreases 12 - month,
    {
        let dim = days_in_month_exec(year, month);
        if rem < dim {
            break ;
        }
        proof {
            if month == 12 {
                lemma_months_cover_year(year as int);
            }
        }
        rem = rem - dim;
        month = month + 1;
    }
    let day = rem + 1;
    (year, month, day)
}

} // verus!
