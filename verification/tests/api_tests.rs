use emarket::api::{
    error_status, get_best_value, get_table_name, live_response, pick_first, summary_windows,
    ApiError, MarketData, TimeRange,
};
use emarket::config::{parse_port, Config};
use emarket::{TN_DAY, TN_HOUR, TN_MONTH};

#[test]
fn test_valid_time_ranges() {
    assert_eq!(TimeRange::from_str("hourly"), Ok(TimeRange::Hourly));
    assert_eq!(TimeRange::from_str("daily"), Ok(TimeRange::Daily));
    assert_eq!(TimeRange::from_str("monthly"), Ok(TimeRange::Monthly));
    assert_eq!(TimeRange::from_str(""), Ok(TimeRange::Monthly));
}

#[test]
fn test_case_insensitivity() {
    assert_eq!(TimeRange::from_str("HOURLY"), Ok(TimeRange::Hourly));
    assert_eq!(TimeRange::from_str("Daily"), Ok(TimeRange::Daily));
    assert_eq!(TimeRange::from_str("moNthly"), Ok(TimeRange::Monthly));
}

#[test]
fn test_invalid_time_ranges() {
    assert!(TimeRange::from_str("weekly").is_err());
    assert!(TimeRange::from_str("yearly").is_err());
    assert!(TimeRange::from_str("aaa").is_err());
    assert!(TimeRange::from_str("123").is_err());
    assert!(TimeRange::from_str("hourlyy").is_err());
}

#[test]
fn table_names_follow_selection() {
    assert_eq!(get_table_name(None).unwrap(), TN_MONTH);
    assert_eq!(get_table_name(Some("hourly".to_string())).unwrap(), TN_HOUR);
    assert_eq!(get_table_name(Some("Daily".to_string())).unwrap(), TN_DAY);
    assert_eq!(get_table_name(Some("".to_string())).unwrap(), TN_MONTH);
    match get_table_name(Some("weekly".to_string())) {
        Err(ApiError::BadRequest(msg, detail)) => {
            assert!(msg.contains("wrong time_range"));
            assert!(detail.contains("weekly"));
        }
        other => panic!("expected a bad request, got {:?}", other.map(|_| ())),
    }
}

#[test]
fn error_statuses() {
    let (code, body) = error_status(&ApiError::BadRequest("bad".to_string(), "d".to_string()));
    assert_eq!(code, 400);
    assert_eq!(body, "bad");
    let (code, body) = error_status(&ApiError::Server("boom".to_string()));
    assert_eq!(code, 500);
    assert_eq!(body, "Internal Server Error");
}

#[test]
fn live_response_reflects_ping() {
    let ok = live_response(Ok("pong".to_string()), "dev".to_string());
    assert!(ok.status);
    assert_eq!(ok.redis, "ok");
    assert_eq!(ok.version, "dev");
    let bad = live_response(Err("no route".to_string()), "dev".to_string());
    assert!(!bad.status);
    assert_eq!(bad.redis, "no route");
}

#[test]
fn pick_first_needs_enough_points() {
    let one = vec![MarketData { at: 1, price_bits: 7 }];
    assert_eq!(pick_first(&one, 1), Some(7));
    assert_eq!(pick_first(&one, 2), None);
    let two = vec![
        MarketData { at: 1, price_bits: 7 },
        MarketData { at: 2, price_bits: 9 },
    ];
    assert_eq!(pick_first(&two, 2), Some(7));
}

#[test]
fn best_value_scans_to_now() {
    let list = vec![
        MarketData { at: 100, price_bits: 1 },
        MarketData { at: 200, price_bits: 2 },
        MarketData { at: 300, price_bits: 3 },
    ];
    let v = get_best_value(&list, 250).unwrap();
    assert_eq!(v.at, 200);
    assert_eq!(v.price_bits, Some(2));
    // everything is ahead of now: the first point is served
    let v = get_best_value(&list, 50).unwrap();
    assert_eq!(v.at, 100);
    assert_eq!(v.price_bits, Some(1));
    assert!(get_best_value(&Vec::new(), 50).is_none());
}

#[test]
fn summary_windows_line_up() {
    let at = chrono::NaiveDate::from_ymd_opt(2023, 3, 15)
        .unwrap()
        .and_hms_opt(12, 0, 0)
        .unwrap()
        .and_utc()
        .timestamp_millis();
    let w = summary_windows(at).unwrap();
    let d = |y: i32, m: u32, day: u32, h: u32| {
        chrono::NaiveDate::from_ymd_opt(y, m, day)
            .unwrap()
            .and_hms_opt(h, 0, 0)
            .unwrap()
            .and_utc()
            .timestamp_millis()
    };
    assert_eq!(w.current_month, (d(2023, 2, 28, 22), d(2023, 3, 31, 21)));
    assert_eq!(w.previous_month, (d(2023, 1, 31, 22), d(2023, 2, 28, 22)));
    assert_eq!(w.today, (d(2023, 3, 14, 22), d(2023, 3, 15, 22)));
    assert_eq!(w.tomorrow, (d(2023, 3, 15, 22), d(2023, 3, 17, 22)));
    assert_eq!(w.yesterday, (d(2023, 3, 13, 22), d(2023, 3, 14, 22)));
    assert_eq!(w.last_7, (d(2023, 3, 8, 22), d(2023, 3, 15, 22)));
    assert_eq!(w.last_30d, (d(2023, 2, 13, 22), d(2023, 3, 15, 22)));
}

#[test]
fn port_parsing() {
    assert_eq!(parse_port("8000"), Some(8000));
    assert_eq!(parse_port("  8000  "), Some(8000));
    assert_eq!(parse_port("+443"), Some(443));
    assert_eq!(parse_port("65535"), Some(65535));
    assert_eq!(parse_port("65536"), None);
    assert_eq!(parse_port(""), None);
    assert_eq!(parse_port("80a0"), None);
    assert_eq!(parse_port("-1"), None);
}

#[test]
fn config_build_paths() {
    let c = Config::build(Some("8000"), Some("redis://localhost")).unwrap();
    assert_eq!(c.port, 8000);
    assert_eq!(c.version, "dev");
    assert_eq!(c.redis_url, "redis://localhost");
    assert!(Config::build(None, Some("redis://localhost")).is_err());
    assert!(Config::build(Some("not a port"), Some("redis://localhost")).is_err());
    assert!(Config::build(Some("8000"), None).is_err());
}
