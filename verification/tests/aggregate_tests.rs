use emarket::aggregator::{
    agg_should_continue, agg_step, bucket_window, AggInstr, AgregatorByDate, BucketKind,
    DEFAULT_EPOCH_MS,
};
use emarket::data::Data;
use emarket::store::Series;

fn dt(year: i32, month: u32, day: u32, h: u32) -> i64 {
    chrono::NaiveDate::from_ymd_opt(year, month, day)
        .unwrap()
        .and_hms_opt(h, 0, 0)
        .unwrap()
        .and_utc()
        .timestamp_millis()
}

/// Drive one aggregation pass over in-memory series, the way the process
/// drives it over the store: walk buckets up to the high-water mark, and
/// write each non-empty bucket's mean at the bucket start.
fn run_pass(
    agg: &mut AgregatorByDate,
    hourly: &Series,
    dest: &mut Series,
    hwm: i64,
) {
    let store_last = dest.last().map(|p| p.at);
    let mut t = agg.start_time(store_last);
    while agg_should_continue(t, hwm) {
        let (from, to) = bucket_window(agg.kind, t).unwrap();
        let points = hourly.range(from, to - 1);
        match agg_step(from, to, &points) {
            AggInstr::Skip { next_t } => {
                t = next_t;
            }
            AggInstr::Write { at, new_last, next_t } => {
                let sum: f64 = points.iter().map(|p| f64::from_bits(p.price_bits)).sum();
                let avg = sum / points.len() as f64;
                dest.append(Data { at, price_bits: avg.to_bits() });
                agg.record(new_last);
                t = next_t;
            }
        }
    }
}

#[test]
fn daily_average_of_three_hours() {
    let mut hourly = Series::new();
    let t0 = dt(2023, 1, 5, 10);
    hourly.append(Data { at: t0, price_bits: 10.0f64.to_bits() });
    hourly.append(Data { at: t0 + 3_600_000, price_bits: 20.0f64.to_bits() });
    hourly.append(Data { at: t0 + 2 * 3_600_000, price_bits: 30.0f64.to_bits() });

    let mut agg = AgregatorByDate::new(BucketKind::Daily);
    agg.last_imported_time = Some(t0);
    let mut daily = Series::new();
    run_pass(&mut agg, &hourly, &mut daily, t0 + 2 * 3_600_000);

    assert_eq!(daily.len(), 1);
    let p = daily.last().unwrap();
    assert_eq!(p.at, dt(2023, 1, 4, 22), "daily point keyed at the bucket start");
    assert_eq!(f64::from_bits(p.price_bits), 20.0);
}

#[test]
fn pass_is_idempotent() {
    let mut hourly = Series::new();
    let t0 = dt(2023, 1, 5, 10);
    for (i, v) in [12.5f64, 7.5, 20.0].iter().enumerate() {
        hourly.append(Data { at: t0 + (i as i64) * 3_600_000, price_bits: v.to_bits() });
    }
    let hwm = t0 + 2 * 3_600_000;

    let mut agg = AgregatorByDate::new(BucketKind::Daily);
    agg.last_imported_time = Some(t0);
    let mut daily = Series::new();
    run_pass(&mut agg, &hourly, &mut daily, hwm);
    let first = daily.range(i64::MIN / 2, i64::MAX / 2);

    let mut agg2 = AgregatorByDate::new(BucketKind::Daily);
    agg2.last_imported_time = Some(t0);
    run_pass(&mut agg2, &hourly, &mut daily, hwm);
    let second = daily.range(i64::MIN / 2, i64::MAX / 2);
    assert_eq!(first, second, "repeating the pass rewrites the same points");
}

#[test]
fn monthly_bucket_spans_month() {
    let t = dt(2023, 3, 26, 5);
    let (from, to) = bucket_window(BucketKind::Monthly, t).unwrap();
    assert_eq!(from, dt(2023, 2, 28, 22));
    assert_eq!(to, dt(2023, 3, 31, 21));
}

#[test]
fn start_time_prefers_cursor_then_store_then_epoch() {
    let mut a = AgregatorByDate::new(BucketKind::Daily);
    assert_eq!(a.start_time(None), DEFAULT_EPOCH_MS);
    let mut b = AgregatorByDate::new(BucketKind::Daily);
    assert_eq!(b.start_time(Some(42)), 42);
    assert_eq!(b.start_time(None), 42, "the adopted cursor sticks");
    let mut c = AgregatorByDate::new(BucketKind::Daily);
    c.last_imported_time = Some(7);
    assert_eq!(c.start_time(Some(42)), 7);
}
