//! Trusted view of the configured civil time zone (Europe/Vilnius).
//!
//! Two uninterpreted names stand for what the zone's rules compute: the
//! civil date a UTC instant falls on, and the UTC instant at which the
//! zone's clock reads midnight of a civil date. Two wrappers tie them to
//! `chrono-tz`. Everything the bucketing logic proves rests on these two
//! contracts and on nothing else about the zone.

use chrono::Datelike;
use chrono::TimeZone;
use vstd::prelude::*;

verus! {

/// Instants handed to the zone conversions must stay well inside the range
/// `chrono` can represent (about ±262,000 years from the epoch).
pub const TS_SAFE_MS: i64 = 4_000_000_000_000_000;

/// Any instant returned by the zone conversions lies strictly inside this
/// bound, which itself leaves ample headroom inside `i64`.
pub const TS_RANGE_MS: i64 = 9_000_000_000_000_000;

/// The civil date `(year, month, day)` in the configured zone of the UTC
/// instant `t_ms` (milliseconds since the epoch).
pub uninterp spec fn local_civil_of(t_ms: int) -> (int, int, int);

/// The UTC instant (milliseconds) at which the configured zone's clock
/// reads midnight of the civil day `(y, m, d)`; when that local midnight
/// occurs twice, the later instant; `None` when the civil day is invalid
/// or its midnight is skipped by a zone transition.
pub uninterp spec fn local_midnight_of(y: int, m: int, d: int) -> Option<int>;

/// Relies on `chrono::DateTime::from_timestamp_millis` (total on the
/// admitted range) and `chrono::TimeZone::from_utc_datetime` for
/// `chrono_tz`'s Europe/Vilnius ("The UTC is continuous and thus this
/// cannot fail"): the civil date the instant falls on in that zone. The
/// field bounds say only that the result is a valid calendar date, which
/// holds of every date `chrono` represents.
#[verifier::external_body]
pub(crate) fn local_civil(t_ms: i64) -> (r: (i64, u8, u8))
    requires
        -TS_SAFE_MS <= t_ms <= TS_SAFE_MS,
    ensures
        (r.0 as int, r.1 as int, r.2 as int) == local_civil_of(t_ms as int),
        -300_000 <= r.0 <= 300_000,
        crate::calendar::spec_valid_civil((r.0 as int, r.1 as int, r.2 as int)),
{
    let utc = chrono::DateTime::from_timestamp_millis(t_ms).unwrap().naive_utc();
    let local = chrono_tz::Europe::Vilnius.from_utc_datetime(&utc);
    (local.year() as i64, local.month() as u8, local.day() as u8)
}

/// Relies on `chrono::TimeZone::with_ymd_and_hms` for `chrono_tz`'s
/// Europe/Vilnius and `MappedLocalTime::latest`: the later UTC instant at
/// which that zone's clock reads 00:00:00 of the given civil day, `None`
/// when the date is invalid or that local midnight is skipped. The
/// returned instant's own local time is exactly that midnight, so its
/// civil date is the given one; and it is a valid `chrono` instant, hence
/// inside `TS_RANGE_MS`.
#[verifier::external_body]
pub(crate) fn local_midnight(y: i64, m: u8, d: u8) -> (r: Option<i64>)
    ensures
        r is Some <==> local_midnight_of(y as int, m as int, d as int) is Some,
        r matches Some(ms) ==> local_midnight_of(y as int, m as int, d as int) == Some(ms as int),
        r matches Some(ms) ==> -TS_RANGE_MS < ms < TS_RANGE_MS,
        r matches Some(ms) ==> local_civil_of(ms as int) == (y as int, m as int, d as int),
{
    let y32 = i32::try_from(y).ok()?;
    let dt = chrono_tz::Europe::Vilnius
        .with_ymd_and_hms(y32, m as u32, d as u32, 0, 0, 0)
        .latest()?;
    Some(dt.timestamp_millis())
}

} // verus!
