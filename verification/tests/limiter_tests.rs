use emarket::limiter::RateLimiter;
use emarket::utils::jitter;

#[test]
fn jitter_test() {
    let mut gt_than_middle = 0;
    for _ in 0..100 {
        let res = jitter(10 * 60_000);
        assert!(res <= 10 * 60_000);
        assert!(res >= 0);
        if res > 5 * 60_000 {
            gt_than_middle += 1;
        }
    }
    assert!(gt_than_middle <= 70);
    assert!(gt_than_middle >= 30);
}

#[test]
fn bucket_grants_sixty_then_waits() {
    let now = 1_700_000_000_000i64;
    let mut rl = RateLimiter::new(now);
    for _ in 0..60 {
        assert_eq!(rl.wait_at(now), None);
    }
    let w = rl.wait_at(now).unwrap();
    assert!(w > 0 && w <= 1_000);
}

#[test]
fn bucket_refills_one_per_second() {
    let now = 1_700_000_000_000i64;
    let mut rl = RateLimiter::new(now);
    for _ in 0..60 {
        assert_eq!(rl.wait_at(now), None);
    }
    assert!(rl.wait_at(now + 500).is_some(), "half a second refills nothing");
    assert_eq!(rl.wait_at(now + 1_000), None, "one second grants one token");
    assert!(rl.wait_at(now + 1_999).is_some());
    assert_eq!(rl.wait_at(now + 2_000), None);
}

#[test]
fn jitter_strictly_below_bound() {
    for _ in 0..200 {
        let res = jitter(3);
        assert!((0..3).contains(&res));
    }
}
