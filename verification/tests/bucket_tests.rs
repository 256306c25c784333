use emarket::bucket::{hour_start, time_day, time_day_vilnius, time_month, time_month_vilnius};

fn dt(year: i32, month: u32, day: u32, h: u32, m: u32, s: u32) -> i64 {
    chrono::NaiveDate::from_ymd_opt(year, month, day)
        .unwrap()
        .and_hms_opt(h, m, s)
        .unwrap()
        .and_utc()
        .timestamp_millis()
}

#[test]
fn get_from_to_adds_day() {
    assert_eq!(
        time_day(dt(2023, 1, 1, 5, 12, 0)).unwrap(),
        (dt(2022, 12, 31, 22, 0, 0), dt(2023, 1, 1, 22, 0, 0))
    );
    assert_eq!(
        time_day(dt(2023, 3, 26, 5, 12, 0)).unwrap(),
        (dt(2023, 3, 25, 22, 0, 0), dt(2023, 3, 26, 21, 0, 0))
    );
}

#[test]
fn get_from_to_moves() {
    let res = time_day(dt(2023, 1, 1, 5, 12, 0)).unwrap();
    assert_eq!(
        time_day(res.1).unwrap(),
        (dt(2023, 1, 1, 22, 0, 0), dt(2023, 1, 2, 22, 0, 0))
    );
}

#[test]
fn get_from_to_moves_at_shift() {
    let res = time_day(dt(2023, 3, 25, 5, 12, 0)).unwrap();
    println!("first: {} - {}", res.0, res.1);
    assert_eq!(
        time_day(res.1).unwrap(),
        (dt(2023, 3, 25, 22, 0, 0), dt(2023, 3, 26, 21, 0, 0))
    );
}

#[test]
fn get_from_to_moves_at_shift_before() {
    let res = time_day(dt(2023, 3, 26, 5, 12, 0)).unwrap();
    println!("first: {} - {}", res.0, res.1);
    assert_eq!(
        time_day(res.1).unwrap(),
        (dt(2023, 3, 26, 21, 0, 0), dt(2023, 3, 27, 21, 0, 0))
    );
}

#[test]
fn time_month_ok() {
    assert_eq!(
        time_month(dt(2023, 1, 1, 5, 12, 0)).unwrap(),
        (dt(2022, 12, 31, 22, 0, 0), dt(2023, 1, 31, 22, 0, 0))
    );
    assert_eq!(
        time_month(dt(2022, 12, 31, 5, 12, 0)).unwrap(),
        (dt(2022, 11, 30, 22, 0, 0), dt(2022, 12, 31, 22, 0, 0))
    );
    assert_eq!(
        time_month(dt(2023, 3, 26, 5, 12, 0)).unwrap(),
        (dt(2023, 2, 28, 22, 0, 0), dt(2023, 3, 31, 21, 0, 0))
    );
}

#[test]
fn time_month_next() {
    let res = time_month(dt(2023, 1, 1, 5, 12, 0)).unwrap();
    assert_eq!(
        time_month(res.1).unwrap(),
        (dt(2023, 1, 31, 22, 0, 0), dt(2023, 2, 28, 22, 0, 0))
    );
    let res = time_month(dt(2023, 2, 1, 5, 12, 0)).unwrap();
    assert_eq!(
        time_month(res.1).unwrap(),
        (dt(2023, 2, 28, 22, 0, 0), dt(2023, 3, 31, 21, 0, 0))
    );
}

#[test]
fn day_window_contains_instant() {
    for &t in &[
        dt(2023, 1, 1, 5, 12, 0),
        dt(2023, 3, 26, 0, 30, 0),
        dt(2023, 10, 29, 0, 30, 0),
        dt(2023, 10, 29, 23, 59, 59),
    ] {
        let (from, to) = time_day(t).unwrap();
        assert!(from <= t && t < to, "window must contain its instant");
        let (mfrom, mto) = time_month(t).unwrap();
        assert!(mfrom <= t && t < mto, "month window must contain its instant");
    }
}

#[test]
fn day_shift_boundaries() {
    assert_eq!(
        time_day_vilnius(dt(2023, 1, 1, 21, 0, 0), 0).unwrap(),
        dt(2022, 12, 31, 22, 0, 0)
    );
    assert_eq!(
        time_day_vilnius(dt(2023, 1, 1, 21, 0, 0), 1).unwrap(),
        dt(2023, 1, 1, 22, 0, 0)
    );
    assert_eq!(
        time_day_vilnius(dt(2023, 1, 1, 21, 0, 0), -1).unwrap(),
        dt(2022, 12, 30, 22, 0, 0)
    );
    assert_eq!(
        time_day_vilnius(dt(2023, 4, 3, 10, 0, 1), -30).unwrap(),
        dt(2023, 3, 3, 22, 0, 0)
    );
}

#[test]
fn month_shift_boundaries() {
    assert_eq!(
        time_month_vilnius(dt(2023, 1, 1, 21, 0, 0), 0).unwrap(),
        dt(2022, 12, 31, 22, 0, 0)
    );
    assert_eq!(
        time_month_vilnius(dt(2023, 1, 1, 22, 0, 0), 1).unwrap(),
        dt(2023, 1, 31, 22, 0, 0)
    );
    assert_eq!(
        time_month_vilnius(dt(2023, 4, 1, 22, 0, 0), -1).unwrap(),
        dt(2023, 2, 28, 22, 0, 0)
    );
    // floor month arithmetic: thirteen months back from February 2023 is
    // January 2022
    assert_eq!(
        time_month_vilnius(dt(2023, 2, 15, 12, 0, 0), -13).unwrap(),
        dt(2021, 12, 31, 22, 0, 0)
    );
}

#[test]
fn test_hour_start() {
    let input = chrono::NaiveDateTime::parse_from_str("2025-01-29 14:37:22", "%Y-%m-%d %H:%M:%S")
        .unwrap()
        .and_utc()
        .timestamp_millis();
    let expected = chrono::NaiveDateTime::parse_from_str("2025-01-29 14:00:00", "%Y-%m-%d %H:%M:%S")
        .unwrap()
        .and_utc()
        .timestamp_millis();
    let result = hour_start(input);
    assert_eq!(result, expected, "hour_start did not return the expected result");
}
