//! Verified core of a day-ahead electricity price pipeline: timezone-aware
//! bucketing of instants into local days and months, the ingest loop's
//! scheduling and watermark decisions, extraction of hourly price points
//! from the upstream market document, an in-memory model of the time-series
//! store, the resumable aggregation driver, and the read API's query logic.
//!
//! Instants are UTC milliseconds since the epoch (`i64`); prices are carried
//! as the bit pattern of an IEEE-754 double (`u64`), so that all decision
//! logic is free of floating point. The surrounding process (I/O, HTTP,
//! channels) lives outside this crate and consumes these functions.

pub mod aggregator;
pub mod api;
pub mod bucket;
pub mod calendar;
pub mod config;
pub mod data;
pub mod entsoe;
pub mod limiter;
pub mod store;
pub mod timefmt;
pub mod tz;
pub mod utils;

use vstd::prelude::*;

use crate::data::Data;
use crate::tz::TS_RANGE_MS;

verus! {

/// Name of the hourly series in the time-series store.
pub const TN_HOUR: &'static str = "np_lt";

/// Name of the daily series in the time-series store.
pub const TN_DAY: &'static str = "np_lt_d";

/// Name of the monthly series in the time-series store.
pub const TN_MONTH: &'static str = "np_lt_m";

/// Width of one upstream polling window.
pub const WINDOW_MS: i64 = 604_800_000;

/// How far the cursor slides past an empty backlog window: one day less
/// than the window, so consecutive windows overlap by a day.
pub const SLIDE_MS: i64 = 518_400_000;

/// New day-ahead data is expected at most this long before the last point
/// it covers: ten hours, plus ten minutes of slack.
pub const SLEEP_LEAD_MS: i64 = 36_600_000;

/// Shortest sleep between polls once caught up.
pub const SLEEP_FLOOR_MS: i64 = 180_000;

/// Upper bound (exclusive) of the random jitter added to each sleep.
pub const SLEEP_JITTER_MS: i64 = 300_000;

/// The sleep before the next poll: until ten hours and ten minutes before
/// the last known point (when that is still ahead), never less than three
/// minutes, plus the caller's jitter.
pub open spec fn spec_get_sleep(last: int, now: int, jitter: int) -> int {
    let expected_next = last - SLEEP_LEAD_MS;
    if expected_next - now > SLEEP_FLOOR_MS {
        expected_next - now + jitter
    } else {
        SLEEP_FLOOR_MS + jitter
    }
}

/// How long to sleep before polling again, given the instant of the last
/// known point, the current instant, and a drawn jitter.
pub fn get_sleep(last_item_time: i64, now: i64, jitter_ms: i64) -> (r: i64)
    requires
        -TS_RANGE_MS <= last_item_time <= TS_RANGE_MS,
        -TS_RANGE_MS <= now <= TS_RANGE_MS,
        0 <= jitter_ms < SLEEP_JITTER_MS,
    ensures
        r == spec_get_sleep(last_item_time as int, now as int, jitter_ms as int),
        r >= SLEEP_FLOOR_MS,
{
    let expected_next = last_item_time - SLEEP_LEAD_MS;
    let base = if expected_next - now > SLEEP_FLOOR_MS {
        expected_next - now
    } else {
        SLEEP_FLOOR_MS
    };
    base + jitter_ms
}

/// The greatest instant in `s` after `from`, or `from` when none is
/// greater: the watermark after forwarding a fetched batch.
pub open spec fn spec_last_at(from: int, s: Seq<int>) -> int
    decreases s.len(),
{
    if s.len() == 0 {
        from
    } else {
        let prev = spec_last_at(from, s.drop_last());
        if prev < s.last() {
            s.last()
        } else {
            prev
        }
    }
}

/// The watermark never falls below the cursor it started from.
pub proof fn lemma_last_at_lower_bound(from: int, s: Seq<int>)
    ensures
        spec_last_at(from, s) >= from,
    decreases s.len(),
{
    if s.len() > 0 {
        lemma_last_at_lower_bound(from, s.drop_last());
    }
}

/// The instants of a batch of points, in order.
pub open spec fn spec_instants(s: Seq<Data>) -> Seq<int> {
    s.map_values(|d: Data| d.at as int)
}

/// Fold a fetched batch into the watermark: the greatest instant seen, and
/// how many points count as imported (zero when nothing moved the
/// watermark, else the whole batch).
pub fn last_instant(from: i64, batch: &Vec<Data>) -> (r: (i64, u64))
    ensures
        r.0 as int == spec_last_at(from as int, spec_instants(batch@)),
        r.0 >= from,
        r.1 == (if r.0 == from {
            0int
        } else {
            batch@.len() as int
        }),
{
    let mut res: i64 = from;
    let mut i: usize = 0;
    while i < batch.len()
        invariant
            0 <= i <= batch@.len(),
            res as int == spec_last_at(from as int, spec_instants(batch@).take(i as int)),
            res >= from,
        decreases batch@.len() - i,
    {
        proof {
            assert(spec_instants(batch@).take(i + 1).drop_last() =~= spec_instants(
                batch@,
            ).take(i as int));
            assert(spec_instants(batch@).take(i + 1).last() == batch@[i as int].at as int);
        }
        if res < batch[i].at {
            res = batch[i].at;
        }
        i = i + 1;
    }
    proof {
        assert(spec_instants(batch@).take(batch@.len() as int) =~= spec_instants(batch@));
    }
    let imported: u64 = if res == from {
        0
    } else {
        batch.len() as u64
    };
    (res, imported)
}

/// What the ingest loop does after one window has been fetched and
/// forwarded.
#[derive(Clone, Copy, Debug, PartialEq, Eq, Structural)]
pub enum IngestDecision {
    /// Empty backlog window: slide the cursor forward (overlapping one
    /// day) and poll again at once; no watermark is emitted.
    SlideWindow { new_cursor: i64 },
    /// Caught up and nothing new: sleep, then emit the watermark and keep
    /// the cursor at it.
    SleepThenEmit { sleep_ms: i64, watermark: i64 },
    /// Points were imported: emit the watermark and continue from it.
    Emit { watermark: i64 },
}

/// The cursor after a step that saw watermark `last` and `imported` points
/// at instant `now`.
pub open spec fn spec_step_cursor(cursor: int, last: int, imported: int, now: int) -> int {
    if imported == 0 && cursor + WINDOW_MS < now {
        cursor + SLIDE_MS
    } else {
        last
    }
}

/// The watermark such a step emits, if any.
pub open spec fn spec_step_hwm(cursor: int, last: int, imported: int, now: int) -> Option<int> {
    if imported == 0 && cursor + WINDOW_MS < now {
        None
    } else {
        Some(last)
    }
}

/// Classify the outcome of one fetched window `[cursor, cursor + 7d)`:
/// slide past an empty backlog window, sleep when caught up, or advance to
/// the new watermark.
pub fn classify_window(cursor: i64, last: i64, imported: u64, now: i64, jitter_ms: i64) -> (r:
    IngestDecision)
    requires
        cursor <= last,
        -TS_RANGE_MS <= cursor <= TS_RANGE_MS,
        -TS_RANGE_MS <= last <= TS_RANGE_MS,
        -TS_RANGE_MS <= now <= TS_RANGE_MS,
        0 <= jitter_ms < SLEEP_JITTER_MS,
    ensures
        ({
            let c2 = spec_step_cursor(cursor as int, last as int, imported as int, now as int);
            let h = spec_step_hwm(cursor as int, last as int, imported as int, now as int);
            match r {
                IngestDecision::SlideWindow { new_cursor } => new_cursor == c2 && h is None,
                IngestDecision::SleepThenEmit { sleep_ms, watermark } => watermark == c2 && h
                    == Some(watermark as int) && imported == 0 && sleep_ms == spec_get_sleep(
                    last as int,
                    now as int,
                    jitter_ms as int,
                ),
                IngestDecision::Emit { watermark } => watermark == c2 && h == Some(
                    watermark as int,
                ) && imported > 0,
            }
        }),
{
    if imported == 0 && cursor + WINDOW_MS < now {
        IngestDecision::SlideWindow { new_cursor: cursor + SLIDE_MS }
    } else if imported == 0 {
        IngestDecision::SleepThenEmit { sleep_ms: get_sleep(last, now, jitter_ms), watermark: last }
    } else {
        IngestDecision::Emit { watermark: last }
    }
}

/// One observed polling round: the instants of the fetched points and the
/// clock reading when the round was classified.
pub struct IngestRound {
    /// Instants of the points the window returned.
    pub instants: Seq<int>,
    /// The current instant when the round's outcome was classified.
    pub now: int,
}

/// The cursor after running `rounds` from cursor `c0`.
pub open spec fn spec_run_cursor(c0: int, rounds: Seq<IngestRound>) -> int
    decreases rounds.len(),
{
    if rounds.len() == 0 {
        c0
    } else {
        let r = rounds.first();
        let last = spec_last_at(c0, r.instants);
        let imported: int = if last == c0 {
            0
        } else {
            r.instants.len() as int
        };
        spec_run_cursor(spec_step_cursor(c0, last, imported, r.now), rounds.drop_first())
    }
}

/// The watermarks emitted while running `rounds` from cursor `c0`.
pub open spec fn spec_run_hwms(c0: int, rounds: Seq<IngestRound>) -> Seq<int>
    decreases rounds.len(),
{
    if rounds.len() == 0 {
        Seq::empty()
    } else {
        let r = rounds.first();
        let last = spec_last_at(c0, r.instants);
        let imported: int = if last == c0 {
            0
        } else {
            r.instants.len() as int
        };
        let rest = spec_run_hwms(spec_step_cursor(c0, last, imported, r.now), rounds.drop_first());
        match spec_step_hwm(c0, last, imported, r.now) {
            Some(h) => seq![h] + rest,
            None => rest,
        }
    }
}

/// Over any run of the ingest loop, the emitted watermarks are
/// monotonically non-decreasing, and none precedes the starting cursor.
pub proof fn lemma_hwms_monotone(c0: int, rounds: Seq<IngestRound>)
    ensures
        spec_run_cursor(c0, rounds) >= c0,
        forall|k: int|
            0 <= k < spec_run_hwms(c0, rounds).len() ==> #[trigger] spec_run_hwms(c0, rounds)[k]
                >= c0,
        forall|i: int, j: int|
            0 <= i <= j < spec_run_hwms(c0, rounds).len() ==> #[trigger] spec_run_hwms(c0, rounds)[i]
                <= #[trigger] spec_run_hwms(c0, rounds)[j],
    decreases rounds.len(),
{
    if rounds.len() > 0 {
        let r = rounds.first();
        let last = spec_last_at(c0, r.instants);
        lemma_last_at_lower_bound(c0, r.instants);
        let imported: int = if last == c0 {
            0
        } else {
            r.instants.len() as int
        };
        let c1 = spec_step_cursor(c0, last, imported, r.now);
        lemma_hwms_monotone(c1, rounds.drop_first());
        let whole = spec_run_hwms(c0, rounds);
        let rest = spec_run_hwms(c1, rounds.drop_first());
        match spec_step_hwm(c0, last, imported, r.now) {
            Some(h) => {
                assert(whole == seq![h] + rest);
                assert(c1 == last && h == last);
                assert forall|k: int| 0 <= k < whole.len() implies #[trigger] whole[k] >= c0 by {
                    if k > 0 {
                        assert(whole[k] == rest[k - 1]);
                    }
                }
                assert forall|i: int, j: int|
                    0 <= i <= j < whole.len() implies #[trigger] whole[i]
                    <= #[trigger] whole[j] by {
                    if i > 0 {
                        assert(whole[i] == rest[i - 1]);
                    }
                    if j > 0 {
                        assert(whole[j] == rest[j - 1]);
                    }
                }
            },
            None => {
                assert(whole == rest);
            },
        }
    }
}

} // verus!
