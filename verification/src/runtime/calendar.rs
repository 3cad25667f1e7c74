//! Proleptic Gregorian calendar dates counted in days from 1970-01-01.
use vstd::prelude::*;

verus! {

/// Leap years: divisible by 4, except centuries not divisible by 400.
pub open spec fn is_leap_year(y: int) -> bool {
    y % 4 == 0 && (y % 100 != 0 || y % 400 == 0)
}

/// Number of days in month `m` (1-based) of year `y`.
pub open spec fn days_in_month(y: int, m: int) -> int {
    if m == 2 {
        if is_leap_year(y) { 29 } else { 28 }
    } else if m == 4 || m == 6 || m == 9 || m == 11 {
        30
    } else {
        31
    }
}

/// `(y, m, d)` names a day of the calendar.
pub open spec fn is_valid_date(y: int, m: int, d: int) -> bool {
    1 <= m <= 12 && 1 <= d <= days_in_month(y, m)
}

/// Position of month `m` in a year that starts in March (March is 0,
/// February is 11).
pub open spec fn march_month(m: int) -> int {
    if m > 2 { m - 3 } else { m + 9 }
}

/// Days from 1970-01-01 to the date `(y, m, d)`: whole 400-year eras, then
/// whole years of the era and days of the year, both counted from March so
/// that the leap day comes last.
pub open spec fn days_from_civil(y: int, m: int, d: int) -> int {
    let yy = if m <= 2 { y - 1 } else { y };
    let era = yy / 400;
    let yoe = yy - era * 400;
    let doy = (153 * march_month(m) + 2) / 5 + d - 1;
    let doe = yoe * 365 + yoe / 4 - yoe / 100 + doy;
    era * 146097 + doe - 719468
}

/// Days in the first `yoe` March-based years of a 400-year era.
pub open spec fn era_days_before(yoe: int) -> int {
    yoe * 365 + yoe / 4 - yoe / 100
}

proof fn lemma_year_of_era(doe: int)
    by (nonlinear_arith)
    requires
        0 <= doe <= 146096,
    ensures
        ({
            let yoe = (doe - doe / 1460 + doe / 36524 - doe / 146096) / 365;
            &&& 0 <= yoe <= 399
            &&& era_days_before(yoe) <= doe
            &&& doe - era_days_before(yoe) <= 364 || (doe - era_days_before(yoe) == 365
                && (yoe + 1) % 4 == 0 && ((yoe + 1) % 100 != 0 || yoe + 1 == 400))
        }),
{
}

/// Length of month `mp` of a March-based year (February last, with 29 days
/// as the bound of a leap year).
pub open spec fn march_month_len(mp: int) -> int {
    if mp == 11 {
        29
    } else if mp == 1 || mp == 3 || mp == 6 || mp == 8 {
        30
    } else {
        31
    }
}

proof fn lemma_month_of_year(doy: int)
    by (nonlinear_arith)
    requires
        0 <= doy <= 365,
    ensures
        ({
            let mp = (5 * doy + 2) / 153;
            let start = (153 * mp + 2) / 5;
            &&& 0 <= mp <= 11
            &&& start <= doy
            &&& doy - start < march_month_len(mp)
        }),
{
}

proof fn lemma_leap_of_era_year(era: int, yoe: int)
    by (nonlinear_arith)
    requires
        0 <= yoe <= 399,
        (yoe + 1) % 4 == 0,
        (yoe + 1) % 100 != 0 || yoe + 1 == 400,
    ensures
        is_leap_year(era * 400 + yoe + 1),
{
}

proof fn lemma_floor_era(yy: int, era: int, yoe: int)
    by (nonlinear_arith)
    requires
        yy == era * 400 + yoe,
        0 <= yoe <= 399,
    ensures
        yy / 400 == era,
        yy - (yy / 400) * 400 == yoe,
{
}

/// Converts days since 1970-01-01 to the calendar date `(year, month, day)`.
pub fn days_to_ymd(days: i64) -> (r: (i64, u32, u32))
    requires
        days <= i64::MAX - 719468,
    ensures
        is_valid_date(r.0 as int, r.1 as int, r.2 as int),
        days_from_civil(r.0 as int, r.1 as int, r.2 as int) == days,
{
    let z = days + 719468;
    let era = (if z >= 0 { z } else { z - 146096 }) / 146097;
    assert(era == z as int / 146097);
    assert(0 <= z - era * 146097 <= 146096);
    let doe = (z - era * 146097) as u32;
    proof { lemma_year_of_era(doe as int); }
    let yoe = (doe - doe / 1460 + doe / 36524 - doe / 146096) / 365;
    let y = yoe as i64 + era * 400;
    let doy = doe - (365 * yoe + yoe / 4 - yoe / 100);
    proof { lemma_month_of_year(doy as int); }
    let mp = (5 * doy + 2) / 153;
    let d = doy - (153 * mp + 2) / 5 + 1;
    let m = if mp < 10 { mp + 3 } else { mp - 9 };
    let y = if m <= 2 { y + 1 } else { y };
    proof {
        let yy = if m <= 2 { y - 1 } else { y as int };
        lemma_floor_era(yy, era as int, yoe as int);
        assert(march_month(m as int) == mp);
        if mp == 11 && d == 29 {
            lemma_leap_of_era_year(era as int, yoe as int);
        }
    }
    (y, m, d)
}

/// The calendar day after `(y, m, d)`.
pub open spec fn next_date(y: int, m: int, d: int) -> (int, int, int) {
    if d < days_in_month(y, m) {
        (y, m, d + 1)
    } else if m < 12 {
        (y, m + 1, 1)
    } else {
        (y + 1, 1, 1)
    }
}

proof fn lemma_era_parts(yy: int)
    by (nonlinear_arith)
    ensures
        0 <= yy - (yy / 400) * 400 <= 399,
{
}

proof fn lemma_era_days_step(yoe: int)
    by (nonlinear_arith)
    requires
        0 <= yoe <= 398,
    ensures
        era_days_before(yoe + 1) - era_days_before(yoe) == 365
            + (if (yoe + 1) % 4 == 0 && (yoe + 1) % 100 != 0 { 1int } else { 0int }),
{
}

proof fn lemma_leap_in_era(era: int, yoe: int)
    by (nonlinear_arith)
    requires
        0 <= yoe <= 398,
    ensures
        is_leap_year(era * 400 + yoe + 1) == ((yoe + 1) % 4 == 0 && (yoe + 1) % 100 != 0),
{
}

proof fn lemma_era_end_leap(era: int)
    by (nonlinear_arith)
    ensures
        is_leap_year(era * 400 + 400),
{
}

/// Day numbers count calendar days: 1970-01-01 is day 0, and the day after
/// any date has the next day number.
pub proof fn lemma_days_from_civil_counts_days(y: int, m: int, d: int)
    requires
        is_valid_date(y, m, d),
    ensures
        days_from_civil(1970, 1, 1) == 0,
        ({
            let (y2, m2, d2) = next_date(y, m, d);
            is_valid_date(y2, m2, d2) && days_from_civil(y2, m2, d2) == days_from_civil(y, m, d) + 1
        }),
{
    lemma_floor_era(1969, 4, 369);
    if d < days_in_month(y, m) {
    } else if m < 12 && m != 2 {
        if m == 1 {
        } else {
            assert(march_month(m + 1) == march_month(m) + 1);
        }
    } else if m == 2 {
        let yy = y - 1;
        let era = yy / 400;
        let yoe = yy - era * 400;
        lemma_era_parts(yy);
        if yoe <= 398 {
            lemma_floor_era(y, era, yoe + 1);
            lemma_era_days_step(yoe);
            lemma_leap_in_era(era, yoe);
        } else {
            lemma_floor_era(y, era + 1, 0);
            lemma_era_end_leap(era);
        }
    } else {
    }
}

} // verus!
