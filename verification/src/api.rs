//! Query logic of the read-only HTTP API: the `time_range` parameter, the
//! series it selects, the summary snapshot's windows, picking representative
//! points out of loaded ranges, and the error-to-status mapping.

use vstd::prelude::*;

use crate::bucket::day_candidate_from;
use crate::bucket::midnight_of_day;
use crate::bucket::time_day_vilnius;
use crate::bucket::time_month_vilnius;
use crate::bucket::DAY_MS;
use crate::calendar::spec_shifted_month_start;
use crate::tz::local_civil_of;
use crate::tz::TS_SAFE_MS;
use crate::TN_DAY;
use crate::TN_HOUR;
use crate::TN_MONTH;

verus! {

/// Which of the three series a price query reads.
#[derive(Clone, Copy, Debug, PartialEq, Eq, Structural)]
pub enum TimeRange {
    /// The hourly series.
    Hourly,
    /// The daily series.
    Daily,
    /// The monthly series.
    Monthly,
}

/// Query parameters of the prices endpoint.
pub struct PricesParams {
    /// Which series to read; absent or empty means monthly.
    pub time_range: Option<String>,
    /// Lower bound of the scan in milliseconds; absent means open.
    pub from: Option<i64>,
    /// Upper bound (exclusive) of the scan; absent means open.
    pub to: Option<i64>,
}

/// Query parameters of the summary endpoint.
pub struct SummaryParams {
    /// The reference instant; absent means now.
    pub at: Option<i64>,
}

/// How a request fails.
#[derive(Debug)]
pub enum ApiError {
    /// The request itself is malformed: user-visible message, then detail.
    BadRequest(String, String),
    /// An internal failure; the message is logged, not shown.
    Server(String),
}

/// Body of the liveness endpoint.
#[derive(Debug, Clone)]
pub struct LiveResponse {
    /// Whether the store answered the liveness check.
    pub status: bool,
    /// What the store answered, or the failure's message.
    pub redis: String,
    /// The serving binary's version.
    pub version: String,
}

/// One point as served by the API.
#[derive(Clone, Copy, Debug, PartialEq, Eq, Structural)]
pub struct MarketData {
    /// UTC milliseconds since the epoch.
    pub at: u64,
    /// Price as `f64::to_bits`.
    pub price_bits: u64,
}

/// The multi-horizon summary snapshot; an absent field means its source
/// range was empty.
pub struct SummaryData {
    /// The reference instant of the snapshot.
    pub at: i64,
    /// Stored monthly average of the month containing `at`.
    pub current_month_avg: Option<u64>,
    /// Stored monthly average of the month before it.
    pub previous_month_avg: Option<u64>,
    /// Stored daily average of the local day containing `at`.
    pub today_avg: Option<u64>,
    /// Stored daily average of the local day after it; absent unless at
    /// least two daily points follow today.
    pub tomorrow_avg: Option<u64>,
    /// Stored daily average of the local day before it.
    pub yesterday_avg: Option<u64>,
    /// Mean of the last thirty daily averages.
    pub last_30d_avg: Option<u64>,
    /// Mean of the last seven daily averages.
    pub last_7_avg: Option<u64>,
}

/// The most recent point at or before now, as served by the current-price
/// endpoint.
#[derive(Clone, Copy, Debug, PartialEq, Eq, Structural)]
pub struct NowData {
    /// Instant of the served point.
    pub at: i64,
    /// Its price as `f64::to_bits`.
    pub price_bits: Option<u64>,
}

/// What `str::to_lowercase` returns: a function of the characters alone.
pub uninterp spec fn lower_of(s: Seq<char>) -> Seq<char>;

/// Relies on `str::to_lowercase`: the Unicode lowercase mapping of the
/// string, a function of its characters alone.
#[verifier::external_body]
fn lowercase(s: &str) -> (r: String)
    ensures
        r@ == lower_of(s@),
{
    s.to_lowercase()
}

/// Character-wise string equality.
fn str_eq(a: &str, b: &str) -> (r: bool)
    ensures
        r <==> a@ == b@,
{
    let la = a.unicode_len();
    let lb = b.unicode_len();
    if la != lb {
        return false;
    }
    let mut i: usize = 0;
    while i < la
        invariant
            0 <= i <= la,
            la == a@.len(),
            la == b@.len(),
            forall|k: int| 0 <= k < i ==> a@[k] == b@[k],
        decreases la - i,
    {
        if a.get_char(i) != b.get_char(i) {
            return false;
        }
        i = i + 1;
    }
    proof {
        assert(a@ =~= b@);
    }
    true
}

/// The series selection a lowercased `time_range` value denotes, `None`
/// when it denotes none.
pub open spec fn spec_time_range_of(l: Seq<char>) -> Option<TimeRange> {
    if l == "hourly"@ {
        Some(TimeRange::Hourly)
    } else if l == "daily"@ {
        Some(TimeRange::Daily)
    } else if l == "monthly"@ || l.len() == 0 {
        Some(TimeRange::Monthly)
    } else {
        None
    }
}

impl TimeRange {
    /// Parse a `time_range` query value, case-insensitively; the empty
    /// string means monthly; anything else is rejected.
    pub fn from_str(s: &str) -> (r: Result<TimeRange, String>)
        ensures
            r is Ok <==> spec_time_range_of(lower_of(s@)) is Some,
            r matches Ok(t) ==> spec_time_range_of(lower_of(s@)) == Some(t),
    {
        let l = lowercase(s);
        if str_eq(l.as_str(), "hourly") {
            Ok(TimeRange::Hourly)
        } else if str_eq(l.as_str(), "daily") {
            Ok(TimeRange::Daily)
        } else if str_eq(l.as_str(), "monthly") || l.as_str().unicode_len() == 0 {
            Ok(TimeRange::Monthly)
        } else {
            let mut msg = String::new();
            msg.append("Invalid time_range value: ");
            msg.append(s);
            Err(msg)
        }
    }
}

/// The view of the series name a selection reads.
pub open spec fn spec_table_of(t: TimeRange) -> Seq<char> {
    match t {
        TimeRange::Hourly => TN_HOUR@,
        TimeRange::Daily => TN_DAY@,
        TimeRange::Monthly => TN_MONTH@,
    }
}

/// The series name a `time_range` query value selects: monthly when the
/// parameter is absent or empty, a bad-request error when it is unknown.
pub fn get_table_name(data: Option<String>) -> (r: Result<&'static str, ApiError>)
    ensures
        data is None ==> (r matches Ok(n) && n@ == TN_MONTH@),
        data matches Some(s) ==> {
            let sel = spec_time_range_of(lower_of(s@));
            &&& (r is Ok <==> sel is Some)
            &&& (r matches Ok(n) ==> n@ == spec_table_of(sel.unwrap()))
            &&& (r matches Err(e) ==> e is BadRequest)
        },
{
    let time_range = match data {
        Some(s) => {
            match TimeRange::from_str(s.as_str()) {
                Ok(t) => t,
                Err(e) => {
                    let mut msg = String::new();
                    msg.append("wrong time_range: ");
                    msg.append(s.as_str());
                    return Err(ApiError::BadRequest(msg, e));
                },
            }
        },
        None => TimeRange::Monthly,
    };
    let res = match time_range {
        TimeRange::Hourly => TN_HOUR,
        TimeRange::Daily => TN_DAY,
        TimeRange::Monthly => TN_MONTH,
    };
    Ok(res)
}

/// The HTTP status and body a failed request is answered with: the message
/// itself for a bad request, a generic body for everything internal.
pub fn error_status(e: &ApiError) -> (r: (u16, String))
    ensures
        e matches ApiError::BadRequest(msg, _) ==> r.0 == 400 && r.1@ == msg@,
        e matches ApiError::Server(_) ==> r.0 == 500 && r.1@ == "Internal Server Error"@,
{
    match e {
        ApiError::BadRequest(msg, _details) => (400, msg.clone()),
        ApiError::Server(_msg) => (500, String::new().concat("Internal Server Error")),
    }
}

/// The liveness body for a store answer: `status` says whether the check
/// succeeded, `redis` carries the answer or the failure message.
pub fn live_response(ping: Result<String, String>, version: String) -> (r: LiveResponse)
    ensures
        r.status == ping is Ok,
        ping matches Ok(_) ==> r.redis@ == "ok"@,
        ping matches Err(e) ==> r.redis@ == e@,
        r.version == version,
{
    match ping {
        Ok(_) => LiveResponse {
            status: true,
            redis: String::new().concat("ok"),
            version,
        },
        Err(e) => LiveResponse { status: false, redis: e, version },
    }
}

/// First point of a loaded range, provided the range holds at least
/// `min_items` points: how the summary reads one stored average back.
pub fn pick_first(list: &Vec<MarketData>, min_items: usize) -> (r: Option<u64>)
    requires
        min_items >= 1,
    ensures
        r == (if list@.len() >= min_items {
            Some(list@[0].price_bits)
        } else {
            None::<u64>
        }),
{
    if list.len() < min_items {
        None
    } else {
        Some(list[0].price_bits)
    }
}

/// Scan a range in order, keeping the latest point not after `now`,
/// stopping at the first later one.
pub open spec fn spec_scan_best(s: Seq<MarketData>, now: int, cur: (int, u64)) -> (int, u64)
    decreases s.len(),
{
    if s.len() == 0 {
        cur
    } else if s.first().at <= now {
        spec_scan_best(s.drop_first(), now, (s.first().at as int, s.first().price_bits))
    } else {
        cur
    }
}

/// The point served as "current": scanning the hour's points in order, the
/// last one at or before `now`, else the range's first point; nothing when
/// the range is empty.
pub fn get_best_value(list: &Vec<MarketData>, now_ms: u64) -> (r: Option<NowData>)
    requires
        forall|k: int| 0 <= k < list@.len() ==> #[trigger] list@[k].at <= i64::MAX as u64,
    ensures
        r is Some <==> list@.len() > 0,
        r matches Some(v) ==> {
            let best = spec_scan_best(
                list@,
                now_ms as int,
                (list@[0].at as int, list@[0].price_bits),
            );
            v.at == best.0 && v.price_bits == Some(best.1)
        },
{
    if list.len() == 0 {
        return None;
    }
    let ghost full = spec_scan_best(list@, now_ms as int, (list@[0].at as int, list@[0].price_bits));
    let mut res_at: u64 = list[0].at;
    let mut res_p: u64 = list[0].price_bits;
    let mut i: usize = 0;
    proof {
        assert(list@.skip(0) =~= list@);
    }
    while i < list.len()
        invariant
            0 <= i <= list@.len(),
            list@.len() > 0,
            res_at <= i64::MAX as u64,
            forall|k: int| 0 <= k < list@.len() ==> #[trigger] list@[k].at <= i64::MAX as u64,
            spec_scan_best(list@.skip(i as int), now_ms as int, (res_at as int, res_p)) == full,
        ensures
            (res_at as int, res_p) == full,
        decreases list@.len() - i,
    {
        proof {
            assert(list@.skip(i as int).first() == list@[i as int]);
            assert(list@.skip(i as int).drop_first() =~= list@.skip(i + 1));
        }
        if list[i].at <= now_ms {
            res_at = list[i].at;
            res_p = list[i].price_bits;
        } else {
            break;
        }
        i = i + 1;
    }
    Some(NowData { at: res_at as i64, price_bits: Some(res_p) })
}

/// The zone midnight opening the local day `shift` days away from the day
/// of `at`.
pub open spec fn spec_day_boundary(at: int, shift: int) -> Option<int> {
    day_candidate_from(at + shift * DAY_MS)
}

/// The zone midnight opening the first day of the month `shift` months
/// away from the month of `at`.
pub open spec fn spec_month_boundary(at: int, shift: int) -> Option<int> {
    midnight_of_day(
        spec_shifted_month_start(local_civil_of(at).0, local_civil_of(at).1, shift),
    )
}

/// The seven half-open windows a summary snapshot reads, all derived from
/// one reference instant.
pub struct SummaryWindows {
    /// The month containing the reference instant.
    pub current_month: (i64, i64),
    /// The month before it.
    pub previous_month: (i64, i64),
    /// The local day containing the reference instant.
    pub today: (i64, i64),
    /// From the next local day to two days later.
    pub tomorrow: (i64, i64),
    /// The local day before today.
    pub yesterday: (i64, i64),
    /// The twenty-nine days before today, and today.
    pub last_30d: (i64, i64),
    /// The six days before today, and today.
    pub last_7: (i64, i64),
}

/// Whether every boundary the summary needs exists for `at`.
pub open spec fn spec_summary_ok(at: int) -> bool {
    &&& spec_month_boundary(at, -1) is Some
    &&& spec_month_boundary(at, 0) is Some
    &&& spec_month_boundary(at, 1) is Some
    &&& spec_day_boundary(at, -29) is Some
    &&& spec_day_boundary(at, -6) is Some
    &&& spec_day_boundary(at, -1) is Some
    &&& spec_day_boundary(at, 0) is Some
    &&& spec_day_boundary(at, 1) is Some
    &&& spec_day_boundary(at, 3) is Some
}

/// Compute the summary's windows from the reference instant: month windows
/// for the month averages, day windows for the day averages, a two-day
/// window for tomorrow, and the trailing seven- and thirty-day spans. Fails
/// exactly when the zone yields no boundary for one of them.
pub fn summary_windows(at: i64) -> (r: Result<SummaryWindows, ApiError>)
    requires
        -TS_SAFE_MS + 60 * DAY_MS <= at <= TS_SAFE_MS - 60 * DAY_MS,
    ensures
        r is Ok <==> spec_summary_ok(at as int),
        r matches Ok(w) ==> {
            &&& w.current_month.0 == spec_month_boundary(at as int, 0).unwrap()
            &&& w.current_month.1 == spec_month_boundary(at as int, 1).unwrap()
            &&& w.previous_month.0 == spec_month_boundary(at as int, -1).unwrap()
            &&& w.previous_month.1 == spec_month_boundary(at as int, 0).unwrap()
            &&& w.today.0 == spec_day_boundary(at as int, 0).unwrap()
            &&& w.today.1 == spec_day_boundary(at as int, 1).unwrap()
            &&& w.tomorrow.0 == spec_day_boundary(at as int, 1).unwrap()
            &&& w.tomorrow.1 == spec_day_boundary(at as int, 3).unwrap()
            &&& w.yesterday.0 == spec_day_boundary(at as int, -1).unwrap()
            &&& w.yesterday.1 == spec_day_boundary(at as int, 0).unwrap()
            &&& w.last_30d.0 == spec_day_boundary(at as int, -29).unwrap()
            &&& w.last_30d.1 == spec_day_boundary(at as int, 1).unwrap()
            &&& w.last_7.0 == spec_day_boundary(at as int, -6).unwrap()
            &&& w.last_7.1 == spec_day_boundary(at as int, 1).unwrap()
        },
{
    let m_prev = time_month_vilnius(at, -1);
    let m_cur = time_month_vilnius(at, 0);
    let m_next = time_month_vilnius(at, 1);
    let d_m29 = time_day_vilnius(at, -29);
    let d_m6 = time_day_vilnius(at, -6);
    let d_m1 = time_day_vilnius(at, -1);
    let d_0 = time_day_vilnius(at, 0);
    let d_1 = time_day_vilnius(at, 1);
    let d_3 = time_day_vilnius(at, 3);
    match (m_prev, m_cur, m_next, d_m29, d_m6, d_m1, d_0, d_1, d_3) {
        (
            Some(mp),
            Some(mc),
            Some(mn),
            Some(dm29),
            Some(dm6),
            Some(dm1),
            Some(d0),
            Some(d1),
            Some(d3),
        ) => Ok(
            SummaryWindows {
                current_month: (mc, mn),
                previous_month: (mp, mc),
                today: (d0, d1),
                tomorrow: (d1, d3),
                yesterday: (dm1, d0),
                last_30d: (dm29, d1),
                last_7: (dm6, d1),
            },
        ),
        _ => Err(ApiError::Server(String::new().concat("no zone boundary for summary"))),
    }
}

} // verus!
