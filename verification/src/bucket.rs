//! Timezone-aware bucketing: the half-open UTC window `[from, to)`
//! covering the local-zone calendar day or month containing an instant,
//! and boundary shifting by whole days or months.
//!
//! A window is described in specifications by `day_window_frame` /
//! `month_window_frame`: its start is the zone's midnight of its own civil
//! day, and its end is the zone's midnight of the following civil day
//! (resp. the first day of the following month). The laws proved here:
//! a civil day determines at most one window, and the window computed at a
//! window's end starts exactly at that end (no gap, no overlap).

use vstd::prelude::*;

use crate::calendar::days_in_month;
use crate::calendar::next_day;
use crate::calendar::next_month_start;
use crate::calendar::shifted_month_start;
use crate::calendar::spec_next_day;
use crate::calendar::spec_next_month_start;
use crate::calendar::spec_shifted_month_start;
use crate::calendar::spec_valid_civil;
use crate::tz::local_civil;
use crate::tz::local_civil_of;
use crate::tz::local_midnight;
use crate::tz::local_midnight_of;
use crate::tz::TS_SAFE_MS;

verus! {

/// One hour in milliseconds.
pub const HOUR_MS: i64 = 3_600_000;

/// One day in milliseconds.
pub const DAY_MS: i64 = 86_400_000;

/// How many times the window search advances before giving up; generous
/// against any zone transition.
const WINDOW_TRIES: u8 = 48;

/// The zone midnight of civil day `c`.
pub open spec fn midnight_of_day(c: (int, int, int)) -> Option<int> {
    local_midnight_of(c.0, c.1, c.2)
}

/// `[f, to)` is the UTC window of the local calendar day of `f`: `f` is
/// the zone midnight of its own civil day and `to` the zone midnight of
/// the next civil day.
pub open spec fn day_window_frame(f: int, to: int) -> bool {
    &&& midnight_of_day(local_civil_of(f)) == Some(f)
    &&& midnight_of_day(spec_next_day(local_civil_of(f))) == Some(to)
}

/// `[f, to)` is the UTC window of the local calendar month of `f`: `f` is
/// the zone midnight of the first day of its own civil month and `to` the
/// zone midnight of the first day of the next month.
pub open spec fn month_window_frame(f: int, to: int) -> bool {
    &&& local_civil_of(f).2 == 1
    &&& midnight_of_day(local_civil_of(f)) == Some(f)
    &&& midnight_of_day(spec_next_month_start(local_civil_of(f))) == Some(to)
}

/// The day-window candidate anchored at the civil day of `u`: its start.
pub open spec fn day_candidate_from(u: int) -> Option<int> {
    midnight_of_day(local_civil_of(u))
}

/// The day-window candidate anchored at the civil day of `u`: its end.
pub open spec fn day_candidate_to(u: int) -> Option<int> {
    midnight_of_day(spec_next_day(local_civil_of(u)))
}

/// Both candidate boundaries of the civil day of `u` exist and enclose `t`.
pub open spec fn day_window_direct(u: int, t: int) -> bool {
    &&& day_candidate_from(u) is Some
    &&& day_candidate_to(u) is Some
    &&& day_candidate_from(u).unwrap() <= t < day_candidate_to(u).unwrap()
}

/// The month-window candidate anchored at the civil month of `u`: its start.
pub open spec fn month_candidate_from(u: int) -> Option<int> {
    midnight_of_day((local_civil_of(u).0, local_civil_of(u).1, 1int))
}

/// The month-window candidate anchored at the civil month of `u`: its end.
pub open spec fn month_candidate_to(u: int) -> Option<int> {
    midnight_of_day(spec_next_month_start(local_civil_of(u)))
}

/// Both candidate boundaries of the civil month of `u` exist and enclose `t`.
pub open spec fn month_window_direct(u: int, t: int) -> bool {
    &&& month_candidate_from(u) is Some
    &&& month_candidate_to(u) is Some
    &&& month_candidate_from(u).unwrap() <= t < month_candidate_to(u).unwrap()
}

/// One candidate check for the day window of `t`, anchored at the civil
/// day of `u` (`u` is `t`, possibly advanced past a zone gap).
fn day_attempt(t_ms: i64, u: i64) -> (r: Option<(i64, i64)>)
    requires
        -TS_SAFE_MS <= u <= TS_SAFE_MS,
    ensures
        r matches Some(w) ==> w.0 <= t_ms < w.1,
        r matches Some(w) ==> day_window_frame(w.0 as int, w.1 as int),
        r matches Some(w) ==> local_civil_of(w.1 as int) == spec_next_day(
            local_civil_of(w.0 as int),
        ),
        day_window_direct(u as int, t_ms as int) ==> (r matches Some(w) && w.0
            == day_candidate_from(u as int).unwrap() && w.1 == day_candidate_to(
            u as int,
        ).unwrap()),
{
    let (y, m, d) = local_civil(u);
    match local_midnight(y, m, d) {
        Some(from) => {
            let (y2, m2, d2) = next_day(y, m, d);
            match local_midnight(y2, m2, d2) {
                Some(to) => {
                    if from <= t_ms && t_ms < to {
                        Some((from, to))
                    } else {
                        None
                    }
                },
                None => None,
            }
        },
        None => None,
    }
}

/// The UTC half-open window `[from, to)` of the local calendar day
/// containing `t_ms`. When the zone's rules yield no enclosing day window
/// (a midnight skipped by a transition), the search advances one hour at a
/// time, so that every instant of a well-behaved zone maps to exactly one
/// window; `None` only when no nearby civil day yields one.
pub fn time_day(t_ms: i64) -> (r: Option<(i64, i64)>)
    requires
        -TS_SAFE_MS + 2 * DAY_MS <= t_ms <= TS_SAFE_MS - 2 * DAY_MS,
    ensures
        r matches Some(w) ==> w.0 <= t_ms < w.1,
        r matches Some(w) ==> day_window_frame(w.0 as int, w.1 as int),
        r matches Some(w) ==> local_civil_of(w.1 as int) == spec_next_day(
            local_civil_of(w.0 as int),
        ),
        day_window_direct(t_ms as int, t_ms as int) ==> (r matches Some(w) && w.0
            == day_candidate_from(t_ms as int).unwrap() && w.1 == day_candidate_to(
            t_ms as int,
        ).unwrap()),
{
    match day_attempt(t_ms, t_ms) {
        Some(w) => Some(w),
        None => {
            let mut u: i64 = t_ms;
            let mut i: u8 = 0;
            while i < WINDOW_TRIES
                invariant
                    !day_window_direct(t_ms as int, t_ms as int),
                    -TS_SAFE_MS + DAY_MS <= t_ms <= TS_SAFE_MS - 2 * DAY_MS,
                    t_ms <= u <= t_ms + i as i64 * HOUR_MS,
                    i <= WINDOW_TRIES,
                decreases WINDOW_TRIES - i,
            {
                u = u + HOUR_MS;
                match day_attempt(t_ms, u) {
                    Some(w) => {
                        return Some(w);
                    },
                    None => {},
                }
                i = i + 1;
            }
            None
        },
    }
}

/// One candidate check for the month window of `t`, anchored at the civil
/// month of `u`.
fn month_attempt(t_ms: i64, u: i64) -> (r: Option<(i64, i64)>)
    requires
        -TS_SAFE_MS <= u <= TS_SAFE_MS,
    ensures
        r matches Some(w) ==> w.0 <= t_ms < w.1,
        r matches Some(w) ==> month_window_frame(w.0 as int, w.1 as int),
        r matches Some(w) ==> local_civil_of(w.1 as int) == spec_next_month_start(
            local_civil_of(w.0 as int),
        ),
        month_window_direct(u as int, t_ms as int) ==> (r matches Some(w) && w.0
            == month_candidate_from(u as int).unwrap() && w.1 == month_candidate_to(
            u as int,
        ).unwrap()),
{
    let (y, m, _d) = local_civil(u);
    match local_midnight(y, m, 1) {
        Some(from) => {
            let (y2, m2, d2) = next_month_start(y, m);
            match local_midnight(y2, m2, d2) {
                Some(to) => {
                    if from <= t_ms && t_ms < to {
                        Some((from, to))
                    } else {
                        None
                    }
                },
                None => None,
            }
        },
        None => None,
    }
}

/// The UTC half-open window `[from, to)` of the local calendar month
/// containing `t_ms`; on a missing boundary the search advances one day at
/// a time, as `time_day` does by hours.
pub fn time_month(t_ms: i64) -> (r: Option<(i64, i64)>)
    requires
        -TS_SAFE_MS + 60 * DAY_MS <= t_ms <= TS_SAFE_MS - 60 * DAY_MS,
    ensures
        r matches Some(w) ==> w.0 <= t_ms < w.1,
        r matches Some(w) ==> month_window_frame(w.0 as int, w.1 as int),
        r matches Some(w) ==> local_civil_of(w.1 as int) == spec_next_month_start(
            local_civil_of(w.0 as int),
        ),
        month_window_direct(t_ms as int, t_ms as int) ==> (r matches Some(w) && w.0
            == month_candidate_from(t_ms as int).unwrap() && w.1 == month_candidate_to(
            t_ms as int,
        ).unwrap()),
{
    match month_attempt(t_ms, t_ms) {
        Some(w) => Some(w),
        None => {
            let mut u: i64 = t_ms;
            let mut i: u8 = 0;
            while i < WINDOW_TRIES
                invariant
                    !month_window_direct(t_ms as int, t_ms as int),
                    -TS_SAFE_MS + 60 * DAY_MS <= t_ms <= TS_SAFE_MS - 60 * DAY_MS,
                    t_ms <= u <= t_ms + i as i64 * DAY_MS,
                    i <= WINDOW_TRIES,
                decreases WINDOW_TRIES - i,
            {
                u = u + DAY_MS;
                match month_attempt(t_ms, u) {
                    Some(w) => {
                        return Some(w);
                    },
                    None => {},
                }
                i = i + 1;
            }
            None
        },
    }
}

/// A civil day determines at most one day window: two framed windows whose
/// starts lie on the same civil day are the same window.
pub proof fn lemma_day_window_unique(f1: int, to1: int, f2: int, to2: int)
    requires
        day_window_frame(f1, to1),
        day_window_frame(f2, to2),
        local_civil_of(f1) == local_civil_of(f2),
    ensures
        f1 == f2,
        to1 == to2,
{
}

/// The day window computed at a framed window's end starts exactly at that
/// end: consecutive day windows leave no gap and do not overlap. The
/// hypotheses exclude only a zone whose data drops the midnight after the
/// window or puts it out of order.
pub proof fn lemma_day_window_follows(f: int, to: int, n: int)
    requires
        day_window_frame(f, to),
        local_civil_of(to) == spec_next_day(local_civil_of(f)),
        midnight_of_day(spec_next_day(local_civil_of(to))) == Some(n),
        to < n,
    ensures
        day_window_frame(to, n),
        day_window_direct(to, to),
{
}

/// A civil month determines at most one month window.
pub proof fn lemma_month_window_unique(f1: int, to1: int, f2: int, to2: int)
    requires
        month_window_frame(f1, to1),
        month_window_frame(f2, to2),
        (local_civil_of(f1).0, local_civil_of(f1).1) == (
            local_civil_of(f2).0,
            local_civil_of(f2).1,
        ),
    ensures
        f1 == f2,
        to1 == to2,
{
}

/// The month window computed at a framed window's end starts exactly at
/// that end: consecutive month windows leave no gap and do not overlap.
pub proof fn lemma_month_window_follows(f: int, to: int, n: int)
    requires
        month_window_frame(f, to),
        local_civil_of(to) == spec_next_month_start(local_civil_of(f)),
        midnight_of_day(spec_next_month_start(local_civil_of(to))) == Some(n),
        to < n,
    ensures
        month_window_frame(to, n),
        month_window_direct(to, to),
{
}

/// The zone midnight of the local calendar day `shift_days` days after the
/// one containing `t_ms`, computed on the UTC timeline first (a shift by
/// exact 24-hour days) and then resolved in the zone.
pub fn time_day_vilnius(t_ms: i64, shift_days: i64) -> (r: Option<i64>)
    requires
        -40_000 <= shift_days <= 40_000,
        -TS_SAFE_MS <= t_ms + shift_days * DAY_MS <= TS_SAFE_MS,
        -TS_SAFE_MS <= t_ms <= TS_SAFE_MS,
    ensures
        r is Some <==> day_candidate_from(t_ms + shift_days * DAY_MS) is Some,
        r matches Some(ms) ==> day_candidate_from(t_ms + shift_days * DAY_MS) == Some(ms as int),
{
    let shifted: i64 = t_ms + shift_days * DAY_MS;
    let (y, m, d) = local_civil(shifted);
    local_midnight(y, m, d)
}

/// The zone midnight of the first day of the month `shift_months` months
/// away from the local month containing `t_ms`, counting months with floor
/// semantics.
pub fn time_month_vilnius(t_ms: i64, shift_months: i64) -> (r: Option<i64>)
    requires
        -TS_SAFE_MS <= t_ms <= TS_SAFE_MS,
        -1_000_000 <= shift_months <= 1_000_000,
    ensures
        r is Some <==> midnight_of_day(
            spec_shifted_month_start(
                local_civil_of(t_ms as int).0,
                local_civil_of(t_ms as int).1,
                shift_months as int,
            ),
        ) is Some,
        r matches Some(ms) ==> midnight_of_day(
            spec_shifted_month_start(
                local_civil_of(t_ms as int).0,
                local_civil_of(t_ms as int).1,
                shift_months as int,
            ),
        ) == Some(ms as int),
{
    let (y, m, _d) = local_civil(t_ms);
    let (y2, m2, d2) = shifted_month_start(y, m, shift_months);
    local_midnight(y2, m2, d2)
}

/// The top of the UTC hour containing `t_ms`.
pub fn hour_start(t_ms: i64) -> (r: i64)
    requires
        0 <= t_ms,
    ensures
        r == t_ms as int - t_ms as int % (HOUR_MS as int),
        r <= t_ms < r + HOUR_MS,
        r as int % (HOUR_MS as int) == 0,
{
    let rem = t_ms.checked_rem_euclid(HOUR_MS).unwrap();
    t_ms - rem
}

} // verus!
