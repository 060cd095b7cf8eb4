use funpay_rs::retry::{is_retryable_status, RateLimiter, RetryPolicy};
use std::time::Duration;

#[test]
fn test_retry_delay_exponential() {
    let policy = RetryPolicy::default();
    assert_eq!(policy.delay_for_attempt(0), Duration::from_millis(1000));
    assert_eq!(policy.delay_for_attempt(1), Duration::from_millis(2000));
    assert_eq!(policy.delay_for_attempt(2), Duration::from_millis(4000));
    assert_eq!(policy.delay_for_attempt(3), Duration::from_millis(8000));
}

#[test]
fn test_retry_delay_capped() {
    let policy = RetryPolicy { max_delay_ms: 5000, ..Default::default() };
    assert_eq!(policy.delay_for_attempt(10), Duration::from_millis(5000));
}

#[test]
fn test_is_retryable_status() {
    assert!(is_retryable_status(429));
    assert!(is_retryable_status(500));
    assert!(is_retryable_status(503));
    assert!(!is_retryable_status(200));
    assert!(!is_retryable_status(404));
    assert!(!is_retryable_status(400));
}

#[test]
fn test_rate_limiter_default() {
    let limiter = RateLimiter::default();
    assert_eq!(limiter.min_interval(), Duration::from_millis(500));
}

#[test]
fn retry_delay_ms_matches_duration() {
    let policy = RetryPolicy { max_retries: 5, base_delay_ms: 300, max_delay_ms: 2000 };
    assert_eq!(policy.delay_ms_for_attempt(0), 300);
    assert_eq!(policy.delay_ms_for_attempt(2), 1200);
    assert_eq!(policy.delay_ms_for_attempt(3), 2000);
}

#[test]
fn retry_delay_defined_only_without_overflow() {
    let policy = RetryPolicy::default();
    assert!(policy.delay_is_defined(10));
    assert!(!policy.delay_is_defined(64));
    assert!(!policy.delay_is_defined(60));
    let zero = RetryPolicy { max_retries: 1, base_delay_ms: 0, max_delay_ms: 10 };
    assert!(zero.delay_is_defined(63));
    assert!(!zero.delay_is_defined(64));
}

#[test]
fn retryable_status_boundaries() {
    assert!(!is_retryable_status(428));
    assert!(!is_retryable_status(430));
    assert!(!is_retryable_status(499));
    assert!(is_retryable_status(599));
    assert!(!is_retryable_status(600));
}

#[test]
fn rate_limiter_waits_for_rest_of_interval() {
    let limiter = RateLimiter::default();
    assert_eq!(limiter.wait_nanos(None), 0);
    assert_eq!(limiter.wait_nanos(Some(200_000_000)), 300_000_000);
    assert_eq!(limiter.wait_nanos(Some(500_000_000)), 0);
    assert_eq!(limiter.wait_nanos(Some(900_000_000)), 0);
}
