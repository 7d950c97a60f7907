use opaque_auth::rate_limit::{check_rate_limit, RateLimitConfig, RateLimitEntry};

#[test]
fn default_config() {
    let c = RateLimitConfig::default();
    assert_eq!(c.max_requests, 5);
    assert_eq!(c.window_seconds, 60);
}

#[test]
fn window_fills_then_denies_then_resets() {
    let config = RateLimitConfig { max_requests: 5, window_seconds: 60 };
    let start = 1_000u64;
    let mut entry: Option<RateLimitEntry> = None;
    for i in 0..5u64 {
        let e = check_rate_limit(entry, start + i * 10, &config).expect("allowed");
        assert_eq!(e.count as u64, i + 1);
        assert_eq!(e.window_start, start);
        entry = Some(e);
    }
    let retry = check_rate_limit(entry, start + 45, &config).unwrap_err();
    assert_eq!(retry, 15);
    assert!(retry <= config.window_seconds);
    let fresh = check_rate_limit(entry, start + 60, &config).unwrap();
    assert_eq!(fresh, RateLimitEntry { count: 1, window_start: start + 60 });
}

#[test]
fn first_request_opens_window() {
    let config = RateLimitConfig::default();
    assert_eq!(
        check_rate_limit(None, 77, &config),
        Ok(RateLimitEntry { count: 1, window_start: 77 })
    );
}

#[test]
fn denied_at_window_start_waits_whole_window() {
    let config = RateLimitConfig { max_requests: 1, window_seconds: 30 };
    let entry = Some(RateLimitEntry { count: 1, window_start: 500 });
    assert_eq!(check_rate_limit(entry, 500, &config), Err(30));
    assert_eq!(check_rate_limit(entry, 529, &config), Err(1));
    assert_eq!(
        check_rate_limit(entry, 530, &config),
        Ok(RateLimitEntry { count: 1, window_start: 530 })
    );
}

#[test]
fn clock_before_window_start_counts_as_inside() {
    let config = RateLimitConfig { max_requests: 2, window_seconds: 10 };
    let entry = Some(RateLimitEntry { count: 2, window_start: 100 });
    assert_eq!(check_rate_limit(entry, 95, &config), Err(15));
    let huge = RateLimitConfig { max_requests: 1, window_seconds: u64::MAX };
    let entry = Some(RateLimitEntry { count: 1, window_start: 10 });
    assert_eq!(check_rate_limit(entry, 0, &huge), Err(u64::MAX));
}
