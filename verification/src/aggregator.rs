//! The aggregation driver: resumable, idempotent maintenance of the daily
//! and monthly series as per-bucket averages of the hourly series.
//!
//! The driver walks bucket windows from a persisted cursor up to each
//! received high-water mark. Everything except the floating-point average
//! itself is decided here: where a bucket starts and ends, whether it gets
//! written, at which instant, and how the cursor advances. The caller
//! (which owns the store handles) loads each window's hourly points,
//! computes their mean, and appends it where `AggInstr` says.

use vstd::prelude::*;

use crate::bucket::time_day;
use crate::bucket::time_month;
use crate::bucket::DAY_MS;
use crate::data::Data;
use crate::tz::TS_SAFE_MS;

verus! {

/// Cursor value used when a destination series is still empty:
/// 2012-01-01 00:00 UTC.
pub const DEFAULT_EPOCH_MS: i64 = 1_325_376_000_000;

/// Which calendar bucket a driver maintains.
#[derive(Clone, Copy, Debug, PartialEq, Eq, Structural)]
pub enum BucketKind {
    /// Local calendar days.
    Daily,
    /// Local calendar months.
    Monthly,
}

/// What to do with one loaded bucket.
#[derive(Clone, Copy, Debug, PartialEq, Eq, Structural)]
pub enum AggInstr {
    /// The bucket holds no hourly points: write nothing and continue at
    /// `next_t`.
    Skip { next_t: i64 },
    /// Write the bucket's average at instant `at`, remember `new_last` as
    /// the last aggregated hourly instant, and continue at `next_t`.
    Write { at: i64, new_last: i64, next_t: i64 },
}

/// One aggregation driver: bucket kind plus the last hourly instant it has
/// folded into its destination series.
pub struct AgregatorByDate {
    /// Which calendar bucket this driver maintains.
    pub kind: BucketKind,
    /// Last aggregated hourly instant, unknown until the destination
    /// series has been consulted.
    pub last_imported_time: Option<i64>,
}

impl AgregatorByDate {
    /// A driver for the given bucket kind that has aggregated nothing yet.
    pub fn new(kind: BucketKind) -> (r: AgregatorByDate)
        ensures
            r.kind == kind,
            r.last_imported_time is None,
    {
        AgregatorByDate { kind, last_imported_time: None }
    }

    /// Where this pass begins: the in-memory cursor when one is held, else
    /// the destination series' last instant, else the default epoch. Also
    /// adopts `store_last` as the cursor when none was held.
    pub fn start_time(&mut self, store_last: Option<i64>) -> (r: i64)
        ensures
            final(self).kind == old(self).kind,
            final(self).last_imported_time == (if old(self).last_imported_time is Some {
                old(self).last_imported_time
            } else {
                store_last
            }),
            r as int == (match old(self).last_imported_time {
                Some(t) => t as int,
                None => match store_last {
                    Some(t) => t as int,
                    None => DEFAULT_EPOCH_MS as int,
                },
            }),
    {
        if self.last_imported_time.is_none() {
            self.last_imported_time = store_last;
        }
        match self.last_imported_time {
            Some(t) => t,
            None => DEFAULT_EPOCH_MS,
        }
    }

    /// Record what a bucket write moved the cursor to.
    pub fn record(&mut self, new_last: i64)
        ensures
            final(self).kind == old(self).kind,
            final(self).last_imported_time == Some(new_last),
    {
        self.last_imported_time = Some(new_last);
    }
}

/// The bucket window of `t` for the given kind: day or month, with the day
/// and month window contracts of `time_day` / `time_month`.
pub fn bucket_window(kind: BucketKind, t_ms: i64) -> (r: Option<(i64, i64)>)
    requires
        -TS_SAFE_MS + 60 * DAY_MS <= t_ms <= TS_SAFE_MS - 60 * DAY_MS,
    ensures
        r matches Some(w) ==> w.0 <= t_ms < w.1,
        kind == BucketKind::Daily ==> (r matches Some(w) ==> crate::bucket::day_window_frame(
            w.0 as int,
            w.1 as int,
        )),
        kind == BucketKind::Monthly ==> (r matches Some(w) ==> crate::bucket::month_window_frame(
            w.0 as int,
            w.1 as int,
        )),
        kind == BucketKind::Daily ==> (crate::bucket::day_window_direct(t_ms as int, t_ms as int)
            ==> r is Some),
        kind == BucketKind::Monthly ==> (crate::bucket::month_window_direct(
            t_ms as int,
            t_ms as int,
        ) ==> r is Some),
{
    match kind {
        BucketKind::Daily => time_day(t_ms),
        BucketKind::Monthly => time_month(t_ms),
    }
}

/// Whether the catch-up walk continues: the cursor has not yet passed the
/// received high-water mark.
pub fn agg_should_continue(t_ms: i64, hwm: i64) -> (r: bool)
    ensures
        r <==> t_ms <= hwm,
{
    t_ms <= hwm
}

/// What to do with the hourly points loaded for the bucket `[from, to)`:
/// skip an empty bucket, else write its average at the bucket start and
/// remember the last hourly instant seen; either way continue at `to`.
pub fn agg_step(from: i64, to: i64, points: &Vec<Data>) -> (r: AggInstr)
    ensures
        points@.len() == 0 ==> r == (AggInstr::Skip { next_t: to }),
        points@.len() > 0 ==> r == (AggInstr::Write {
            at: from,
            new_last: points@.last().at,
            next_t: to,
        }),
{
    if points.len() == 0 {
        AggInstr::Skip { next_t: to }
    } else {
        AggInstr::Write { at: from, new_last: points[points.len() - 1].at, next_t: to }
    }
}

} // verus!
