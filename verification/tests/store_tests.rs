use emarket::data::Data;
use emarket::store::Series;

fn d(at: i64, price: f64) -> Data {
    Data { at, price_bits: price.to_bits() }
}

#[test]
fn three_records_round_trip() {
    let mut s = Series::new();
    s.append(d(3_000, 30.0));
    s.append(d(1_000, 10.0));
    s.append(d(2_000, 20.0));
    let r = s.range(1_000, 3_000);
    assert_eq!(r.len(), 3);
    assert_eq!(r[0], d(1_000, 10.0));
    assert_eq!(r[1], d(2_000, 20.0));
    assert_eq!(r[2], d(3_000, 30.0));
}

#[test]
fn duplicate_instant_last_write_wins() {
    let mut s = Series::new();
    s.append(d(1_000, 10.0));
    s.append(d(1_000, 11.5));
    assert_eq!(s.len(), 1);
    assert_eq!(s.range(0, 2_000)[0], d(1_000, 11.5));
}

#[test]
fn range_is_inclusive_both_ends() {
    let mut s = Series::new();
    for at in [1_000i64, 2_000, 3_000, 4_000] {
        s.append(d(at, at as f64));
    }
    let r = s.range(2_000, 3_000);
    assert_eq!(r.len(), 2);
    assert_eq!(r[0].at, 2_000);
    assert_eq!(r[1].at, 3_000);
    // emulating a half-open window scans to one millisecond before the end
    let r = s.range(1_000, 3_000 - 1);
    assert_eq!(r.len(), 2);
    assert!(s.range(5_000, 9_000).is_empty());
}

#[test]
fn last_returns_greatest_instant() {
    let mut s = Series::new();
    assert!(s.last().is_none());
    s.append(d(2_000, 2.0));
    s.append(d(1_000, 1.0));
    assert_eq!(s.last().unwrap().at, 2_000);
}
