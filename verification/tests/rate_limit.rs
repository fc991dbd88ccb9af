use holdfast::net::IpAddr;
use holdfast::rate_limit::{Bucket, RateLimitPolicy, RateLimiter};

const SECOND: u64 = 1_000;

fn ip(n: u32) -> IpAddr {
    IpAddr::V4(n)
}

#[test]
fn lockout_after_max_failures_then_recovers() {
    let mut limiter = RateLimiter::new(RateLimitPolicy {
        max_failures: 3,
        window: 60 * SECOND,
        lockout: 30 * SECOND,
        ..RateLimitPolicy::default()
    });
    let source = IpAddr::V4(0x0A00_0001);
    let t0 = 5_000_000;

    assert!(limiter.check(source, t0));
    for _ in 0..3 {
        limiter.record_failure(source, t0);
    }
    assert!(!limiter.check(source, t0), "locked out after 3 failures");
    assert!(!limiter.check(source, t0 + 29 * SECOND), "still locked");
    assert!(limiter.check(source, t0 + 31 * SECOND), "recovers after lockout");
}

#[test]
fn success_clears_the_record() {
    let mut limiter = RateLimiter::new(RateLimitPolicy {
        max_failures: 2,
        window: 60 * SECOND,
        lockout: 30 * SECOND,
        ..RateLimitPolicy::default()
    });
    let source = IpAddr::V4(0x0A00_0002);
    let t0 = 5_000_000;
    limiter.record_failure(source, t0);
    limiter.record_success(source);
    limiter.record_failure(source, t0);
    assert!(limiter.check(source, t0), "one failure after reset is fine");
}

#[test]
fn old_failures_age_out_of_the_window() {
    let mut limiter = RateLimiter::new(RateLimitPolicy {
        max_failures: 3,
        window: 10 * SECOND,
        lockout: 30 * SECOND,
        ..RateLimitPolicy::default()
    });
    let source = IpAddr::V4(0x0A00_0003);
    let t0 = 5_000_000;
    limiter.record_failure(source, t0);
    limiter.record_failure(source, t0 + 11 * SECOND);
    limiter.record_failure(source, t0 + 12 * SECOND);
    // Only 2 failures inside any 10s window → not locked.
    assert!(limiter.check(source, t0 + 12 * SECOND));
}

#[test]
fn dead_buckets_are_swept_after_the_window() {
    let mut limiter = RateLimiter::new(RateLimitPolicy {
        max_failures: 5,
        window: 60 * SECOND,
        lockout: 60 * SECOND,
        ..RateLimitPolicy::default()
    });
    let t0 = 5_000_000;
    // 1000 IPs each fail once, then never return.
    for i in 0..1000 {
        limiter.record_failure(ip(i), t0);
    }
    assert_eq!(limiter.tracked_sources(), 1000, "all tracked while failures are fresh");

    // A later failure (past the window) triggers the throttled sweep: every
    // one-shot bucket is now dead and reclaimed.
    limiter.record_failure(ip(9_999), t0 + 61 * SECOND);
    assert_eq!(
        limiter.tracked_sources(),
        1,
        "stale one-shot buckets swept, only the fresh one remains"
    );
}

#[test]
fn hard_cap_bounds_the_map_under_a_flood() {
    let mut limiter = RateLimiter::new(RateLimitPolicy {
        max_failures: 5,
        window: 60 * SECOND,
        lockout: 60 * SECOND,
        max_tracked: 100,
    });
    let t0 = 5_000_000;
    // 500 distinct IPs fail within the window (all buckets live, not dead) —
    // the hard cap must still bound the map.
    for i in 0..500 {
        limiter.record_failure(ip(i), t0 + u64::from(i));
    }
    assert!(
        limiter.tracked_sources() <= 100,
        "map bounded to max_tracked, got {}",
        limiter.tracked_sources()
    );
}

#[test]
fn eviction_keeps_the_longest_lived_buckets() {
    let mut limiter = RateLimiter::new(RateLimitPolicy {
        max_failures: 5,
        window: 60 * SECOND,
        lockout: 60 * SECOND,
        max_tracked: 2,
    });
    let t0 = 5_000_000;
    // Three IPs fail at increasing times; the earliest-expiring is evicted.
    limiter.record_failure(ip(1), t0);
    limiter.record_failure(ip(2), t0 + SECOND);
    limiter.record_failure(ip(3), t0 + 2 * SECOND);
    assert_eq!(limiter.tracked_sources(), 2);
    // ip(1) expired soonest → evicted; ip(2)/ip(3) retained (still tracked,
    // so a follow-up failure builds on their history).
    limiter.record_failure(ip(2), t0 + 3 * SECOND);
    // ip(2) now has 2 in-window failures; give it 3 more to confirm it was
    // never reset by eviction.
    for k in 4..7 {
        limiter.record_failure(ip(2), t0 + k * SECOND);
    }
    assert!(
        !limiter.check(ip(2), t0 + 6 * SECOND),
        "ip(2) history survived eviction of others"
    );
}

#[test]
fn the_usual_policy_locks_out_for_a_minute() {
    let policy = RateLimitPolicy::default();
    assert_eq!(policy.max_failures, 5);
    assert_eq!(policy.window, 60_000);
    assert_eq!(policy.lockout, 60_000);
    assert_eq!(policy.max_tracked, 100_000);
    let mut limiter = RateLimiter::new(policy);
    for _ in 0..5 {
        limiter.record_failure(ip(7), 0);
    }
    assert!(!limiter.check(ip(7), 59_999));
    assert!(limiter.check(ip(8), 0));
    assert!(limiter.check(ip(7), 60_000));
}

#[test]
fn a_bucket_is_dead_from_the_time_at_which_it_expires() {
    let window = 60;
    let bucket = Bucket { failures: vec![10, 40, 25], locked_until: None };
    assert_eq!(bucket.expires_at(50, window), 100);
    assert!(!bucket.is_dead(99, window));
    assert!(bucket.is_dead(100, window));
    let locked = Bucket { failures: vec![10], locked_until: Some(150) };
    assert_eq!(locked.expires_at(50, window), 150);
    assert!(!locked.is_dead(149, window));
    assert!(locked.is_dead(150, window));
    let blank = Bucket { failures: vec![], locked_until: None };
    assert_eq!(blank.expires_at(50, window), 50);
    assert!(blank.is_dead(50, window));
    let last = Bucket { failures: vec![u64::MAX], locked_until: None };
    assert_eq!(last.expires_at(u64::MAX, window), u64::MAX as u128 + 60);
    assert!(!last.is_dead(u64::MAX, window));
}
