//! Proleptic Gregorian calendar arithmetic on plain integers: leap years,
//! month lengths, the successor of a civil day, and month shifting with
//! floor semantics. A civil day is a `(year, month, day)` triple; in
//! specifications it is an `(int, int, int)` tuple.

use vstd::prelude::*;

verus! {

/// Whether `y` is a leap year in the proleptic Gregorian calendar.
pub open spec fn spec_is_leap(y: int) -> bool {
    (y % 4 == 0 && y % 100 != 0) || y % 400 == 0
}

/// Number of days in month `m` of year `y` (1-based months).
pub open spec fn spec_days_in_month(y: int, m: int) -> int {
    if m == 2 {
        if spec_is_leap(y) {
            29
        } else {
            28
        }
    } else if m == 4 || m == 6 || m == 9 || m == 11 {
        30
    } else {
        31
    }
}

/// Whether `(y, m, d)` is a valid civil day.
pub open spec fn spec_valid_civil(c: (int, int, int)) -> bool {
    1 <= c.1 <= 12 && 1 <= c.2 <= spec_days_in_month(c.0, c.1)
}

/// The civil day immediately after `c`.
pub open spec fn spec_next_day(c: (int, int, int)) -> (int, int, int) {
    if c.2 < spec_days_in_month(c.0, c.1) {
        (c.0, c.1, c.2 + 1)
    } else if c.1 < 12 {
        (c.0, c.1 + 1, 1)
    } else {
        (c.0 + 1, 1, 1)
    }
}

/// First day of the month containing `c`.
pub open spec fn spec_month_start(c: (int, int, int)) -> (int, int, int) {
    (c.0, c.1, 1)
}

/// First day of the month immediately after the month of `c`.
pub open spec fn spec_next_month_start(c: (int, int, int)) -> (int, int, int) {
    if c.1 < 12 {
        (c.0, c.1 + 1, 1)
    } else {
        (c.0 + 1, 1, 1)
    }
}

/// First day of the month `shift` months away from the month of `(y, m)`,
/// counting with floor semantics so that negative shifts walk backwards
/// through years (shifting -13 from February lands in January of the
/// previous-but-one year).
pub open spec fn spec_shifted_month_start(y: int, m: int, shift: int) -> (int, int, int) {
    let m0 = m - 1 + shift;
    (y + m0 / 12, m0 % 12 + 1, 1)
}

/// Whether `y` is a leap year.
pub fn is_leap(y: i64) -> (r: bool)
    ensures
        r == spec_is_leap(y as int),
{
    let m4 = y.checked_rem_euclid(4).unwrap();
    let m100 = y.checked_rem_euclid(100).unwrap();
    let m400 = y.checked_rem_euclid(400).unwrap();
    m4 == 0 && (m100 != 0 || m400 == 0)
}

/// Number of days in month `m` of year `y`.
pub fn days_in_month(y: i64, m: u8) -> (r: u8)
    requires
        1 <= m <= 12,
    ensures
        r as int == spec_days_in_month(y as int, m as int),
{
    if m == 2 {
        if is_leap(y) {
            29
        } else {
            28
        }
    } else if m == 4 || m == 6 || m == 9 || m == 11 {
        30
    } else {
        31
    }
}

/// The civil day immediately after `(y, m, d)`.
pub fn next_day(y: i64, m: u8, d: u8) -> (r: (i64, u8, u8))
    requires
        1 <= m <= 12,
        1 <= d <= spec_days_in_month(y as int, m as int),
        y < i64::MAX,
    ensures
        (r.0 as int, r.1 as int, r.2 as int) == spec_next_day((y as int, m as int, d as int)),
        spec_valid_civil((r.0 as int, r.1 as int, r.2 as int)),
{
    if d < days_in_month(y, m) {
        (y, m, d + 1)
    } else if m < 12 {
        (y, m + 1, 1)
    } else {
        (y + 1, 1, 1)
    }
}

/// First day of the month immediately after the month of `(y, m)`.
pub fn next_month_start(y: i64, m: u8) -> (r: (i64, u8, u8))
    requires
        1 <= m <= 12,
        y < i64::MAX,
    ensures
        (r.0 as int, r.1 as int, r.2 as int) == spec_next_month_start(
            (y as int, m as int, 1int),
        ),
        spec_valid_civil((r.0 as int, r.1 as int, r.2 as int)),
{
    if m < 12 {
        (y, m + 1, 1)
    } else {
        (y + 1, 1, 1)
    }
}

/// First day of the month `shift` months away from the month of `(y, m)`.
pub fn shifted_month_start(y: i64, m: u8, shift: i64) -> (r: (i64, u8, u8))
    requires
        1 <= m <= 12,
        -1_000_000_000 <= y <= 1_000_000_000,
        -1_000_000_000 <= shift <= 1_000_000_000,
    ensures
        (r.0 as int, r.1 as int, r.2 as int) == spec_shifted_month_start(
            y as int,
            m as int,
            shift as int,
        ),
        spec_valid_civil((r.0 as int, r.1 as int, r.2 as int)),
{
    let m0: i64 = (m as i64) - 1 + shift;
    let ys: i64 = m0.checked_div_euclid(12).unwrap();
    let nm: i64 = m0.checked_rem_euclid(12).unwrap();
    (y + ys, (nm + 1) as u8, 1)
}

} // verus!
