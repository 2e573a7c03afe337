use sandbox_egress::rate::{RateLimit, TokenBucket};

const MILLISECOND: u128 = 1_000_000;
const SECOND: u128 = 1_000_000_000;
const NOW: u128 = 7_000_000_000_000;

#[test]
fn burst_is_available_immediately_and_stays_bounded() {
    let limit = RateLimit::new(2, 3);
    let mut bucket = TokenBucket::full(limit, NOW);

    assert!(bucket.try_take(NOW));
    assert!(bucket.try_take(NOW));
    assert!(bucket.try_take(NOW));
    assert!(!bucket.try_take(NOW));
}

#[test]
fn fractional_refill_accumulates_without_floating_point() {
    let limit = RateLimit::new(2, 1);
    let mut bucket = TokenBucket::full(limit, NOW);

    assert!(bucket.try_take(NOW));
    assert!(!bucket.try_take(NOW + 499 * MILLISECOND));
    assert!(bucket.try_take(NOW + 500 * MILLISECOND));
    assert!(!bucket.try_take(NOW + 999 * MILLISECOND));
    assert!(bucket.try_take(NOW + SECOND));
}

#[test]
fn long_refill_cannot_exceed_burst() {
    let limit = RateLimit::new(u32::MAX, 2);
    let mut bucket = TokenBucket::full(limit, NOW);

    assert!(bucket.try_take(NOW));
    assert!(bucket.try_take(NOW));
    assert!(!bucket.try_take(NOW));
    let later = NOW + 10 * SECOND;
    assert!(bucket.try_take(later));
    assert!(bucket.try_take(later));
    assert!(!bucket.try_take(later));
}

#[test]
fn invalid_limits_are_rejected() {
    assert!(!RateLimit::new(0, 1).is_valid());
    assert!(!RateLimit::new(1, 0).is_valid());
    assert!(RateLimit::new(1, 1).is_valid());
}

#[test]
fn a_bucket_counts_billionths_of_a_token() {
    let mut bucket = TokenBucket::full(RateLimit::new(3, 2), NOW);
    assert_eq!(bucket.tokens, 2_000_000_000);
    assert!(bucket.try_take(NOW));
    assert_eq!(bucket.tokens, 1_000_000_000);
    assert!(bucket.try_take(NOW + 100));
    assert_eq!(bucket.tokens, 300);
    assert_eq!(bucket.updated_at, NOW + 100);
}

#[test]
fn a_clock_that_goes_backwards_refills_nothing() {
    let mut bucket = TokenBucket::full(RateLimit::new(1, 1), NOW);
    assert!(bucket.try_take(NOW));
    assert!(!bucket.try_take(NOW - SECOND));
    assert_eq!(bucket.updated_at, NOW - SECOND);
    assert!(bucket.try_take(NOW));
}

#[test]
fn the_longest_wait_fills_the_bucket_once() {
    let mut bucket = TokenBucket::full(RateLimit::new(u32::MAX, u32::MAX), 0);
    assert!(bucket.try_take(0));
    assert!(bucket.try_take(u128::MAX));
    assert_eq!(bucket.tokens, 4_294_967_294_000_000_000);
}

#[test]
fn grants_over_a_time_stay_within_burst_and_rate() {
    let mut bucket = TokenBucket::full(RateLimit::new(2, 3), NOW);
    let mut granted = 0;
    for step in 0..=2_000 {
        if bucket.try_take(NOW + step * MILLISECOND) {
            granted += 1;
        }
    }
    assert_eq!(granted, 3 + 2 * 2);
}
