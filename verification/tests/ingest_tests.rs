use emarket::data::Data;
use emarket::{classify_window, get_sleep, last_instant, IngestDecision};

const MIN: i64 = 60_000;
const HOUR: i64 = 3_600_000;

#[test]
fn get_sleep_long() {
    let now = chrono::Utc::now().timestamp_millis();
    let at = now + 25 * HOUR;
    assert_eq!(get_sleep(at, now, 0), at - now - 10 * HOUR - 10 * MIN);
}

#[test]
fn get_sleep_near() {
    let now = chrono::Utc::now().timestamp_millis();
    let at = now + 5 * HOUR;
    assert_eq!(get_sleep(at, now, 0), 3 * MIN);
}

#[test]
fn get_sleep_near_jitter() {
    let now = chrono::Utc::now().timestamp_millis();
    let at = now + 5 * HOUR;
    assert_eq!(get_sleep(at, now, MIN), 4 * MIN);
}

#[test]
fn get_sleep_near_10() {
    // expected data only a minute ahead of the poll lead: the sleep is
    // floored at three minutes
    let now = chrono::Utc::now().timestamp_millis();
    let at = now + 10 * HOUR + 11 * MIN;
    assert_eq!(get_sleep(at, now, 0), 3 * MIN);
}

#[test]
fn get_sleep_near_10_2() {
    let now = chrono::Utc::now().timestamp_millis();
    let at = now + 10 * HOUR + 9 * MIN;
    assert_eq!(get_sleep(at, now, 0), 3 * MIN);
}

#[test]
fn last_instant_empty_batch() {
    let (last, imported) = last_instant(1_000, &Vec::new());
    assert_eq!(last, 1_000);
    assert_eq!(imported, 0);
}

#[test]
fn last_instant_takes_max() {
    let batch = vec![
        Data { at: 2_000, price_bits: 1 },
        Data { at: 5_000, price_bits: 2 },
        Data { at: 3_000, price_bits: 3 },
    ];
    let (last, imported) = last_instant(1_000, &batch);
    assert_eq!(last, 5_000);
    assert_eq!(imported, 3);
}

#[test]
fn last_instant_stale_batch_counts_zero() {
    let batch = vec![Data { at: 500, price_bits: 1 }];
    let (last, imported) = last_instant(1_000, &batch);
    assert_eq!(last, 1_000);
    assert_eq!(imported, 0);
}

#[test]
fn classify_empty_backlog_window_slides() {
    let cursor = 0;
    let now = 30 * 86_400_000;
    let d = classify_window(cursor, cursor, 0, now, 0);
    assert_eq!(
        d,
        IngestDecision::SlideWindow { new_cursor: cursor + 6 * 86_400_000 }
    );
}

#[test]
fn classify_caught_up_sleeps_and_emits() {
    let now = 30 * 86_400_000;
    let cursor = now - 3 * 86_400_000;
    let d = classify_window(cursor, cursor, 0, now, 0);
    assert_eq!(
        d,
        IngestDecision::SleepThenEmit { sleep_ms: 3 * MIN, watermark: cursor }
    );
}

#[test]
fn classify_imported_emits_watermark() {
    let now = 30 * 86_400_000;
    let cursor = now - 3 * 86_400_000;
    let last = cursor + 36 * HOUR;
    let d = classify_window(cursor, last, 24, now, 0);
    assert_eq!(d, IngestDecision::Emit { watermark: last });
}
