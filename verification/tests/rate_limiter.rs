//! The rate decomposition table and the shaper's construction.

use perf_gauge::rate_limiter::RateLimiter;

/// Rates are given in thousandths of requests per second; intervals come
/// back in milliseconds.
#[test]
fn test_rate_to_refill_amount_and_duration() {
    let test: Vec<(u64, (u64, u64))> = vec![
        (100, (1, 10_000)),
        (500, (1, 2_000)),
        (1_000, (1, 1_000)),
        (2_000, (1, 500)),
        (5_000, (1, 200)),
        (100_000, (1, 10)),
        (150_000, (3, 20)),
        (250_000, (1, 4)),
        (300_000, (3, 10)),
        (1_000_000, (1, 1)),
        (1_250_000, (5, 4)),
        (1_500_000, (3, 2)),
        (2_000_000, (2, 1)),
        (2_222_000, (1111, 500)),
        (5_000_000, (5, 1)),
    ];

    test.iter().for_each(|(rate, (amount, duration))| {
        assert_eq!(
            RateLimiter::rate_to_refill_amount_and_duration(*rate),
            (*amount, *duration)
        );
    });
}

#[test]
fn test_gcd_pairs() {
    assert_eq!(RateLimiter::gcd(150, 1000), 50);
    assert_eq!(RateLimiter::gcd(1000, 1000), 1000);
    assert_eq!(RateLimiter::gcd(7, 1000), 1);
    assert_eq!(RateLimiter::gcd(0, 5), 5);
    assert_eq!(RateLimiter::gcd(5, 0), 5);
}

#[test]
fn test_zero_rate_is_unlimited() {
    let unlimited = RateLimiter::build_rate_limiter(0);
    assert!(unlimited.bucket_ref().is_none());
    let limited = RateLimiter::build_rate_limiter(100_000);
    assert!(limited.bucket_ref().is_some());
}

#[test]
fn test_limited_frequent() {
    let rate_limiter = RateLimiter::build_rate_limiter(100_000);
    let runtime = tokio::runtime::Builder::new_current_thread()
        .enable_time()
        .build()
        .expect("runtime");
    let begin = std::time::Instant::now();
    runtime.block_on(async {
        for _ in 0..100 {
            if let Some(bucket) = rate_limiter.bucket_ref() {
                bucket.acquire_one().await;
            }
        }
    });
    let elapsed = std::time::Instant::now().duration_since(begin);
    println!("Elapsed: {:?}", elapsed);
    assert!((elapsed.as_secs_f64() - 1.).abs() < 0.3);
}

#[test]
fn test_unlimited() {
    let rate_limiter = RateLimiter::build_rate_limiter(0);
    let runtime = tokio::runtime::Builder::new_current_thread()
        .enable_time()
        .build()
        .expect("runtime");
    let begin = std::time::Instant::now();
    runtime.block_on(async {
        for _ in 0..1_000_000 {
            if let Some(bucket) = rate_limiter.bucket_ref() {
                bucket.acquire_one().await;
            }
        }
    });
    let elapsed = std::time::Instant::now().duration_since(begin);
    println!("Elapsed: {:?}", elapsed);
    assert!(elapsed.as_secs_f64() < 1.);
}
