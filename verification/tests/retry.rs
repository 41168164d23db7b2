use opencowork::delivery::{DeliveryError, RetryConfig, RetryRun};

/// Drives a retry run the way the async driver does, without sleeping.
fn run_with_retry<T>(
    config: &RetryConfig,
    mut op: impl FnMut() -> Result<T, DeliveryError>,
) -> (Result<T, DeliveryError>, Vec<Option<u64>>) {
    let mut run = RetryRun::new(config);
    let mut sleeps = Vec::new();
    while run.wants_attempt() {
        match op() {
            Ok(v) => return (Ok(v), sleeps),
            Err(e) => match run.record_failure(config, e) {
                Err(e) => return (Err(e), sleeps),
                Ok(sleep) => sleeps.push(sleep),
            },
        }
    }
    (Err(run.give_up()), sleeps)
}

#[test]
fn test_retry_succeeds_on_third_attempt() {
    let config = RetryConfig::new(5, 10);
    let mut count = 0u32;
    let (result, _) = run_with_retry(&config, || {
        count += 1;
        if count < 3 {
            Err(DeliveryError::Transient("fail".into()))
        } else {
            Ok(42)
        }
    });
    assert_eq!(result.unwrap(), 42);
    assert_eq!(count, 3);
}

#[test]
fn test_retry_stops_on_permanent_error() {
    let config = RetryConfig::new(5, 10);
    let mut count = 0u32;
    let (result, _): (Result<(), _>, _) = run_with_retry(&config, || {
        count += 1;
        Err(DeliveryError::Permanent("bad".into()))
    });
    assert!(result.is_err());
    assert_eq!(count, 1);
}

#[test]
fn test_retry_exhausts_attempts() {
    let config = RetryConfig::new(3, 10);
    let mut count = 0u32;
    let (result, sleeps): (Result<(), _>, _) = run_with_retry(&config, || {
        count += 1;
        Err(DeliveryError::Transient("fail".into()))
    });
    assert!(matches!(result, Err(DeliveryError::Transient(ref m)) if m == "fail"));
    assert_eq!(count, 3);
    // two sleeps between three attempts, none after the last
    assert_eq!(sleeps.len(), 3);
    assert!(sleeps[0].is_some() && sleeps[1].is_some() && sleeps[2].is_none());
}

#[test]
fn retry_waits_the_suggested_delay_when_rate_limited() {
    let config = RetryConfig::new(2, 10);
    let mut run = RetryRun::new(&config);
    let r = run.record_failure(&config, DeliveryError::RateLimited { retry_after_ms: 1234 });
    assert_eq!(r.unwrap(), Some(1234));
}

#[test]
fn retry_with_no_attempts_gives_up_at_once() {
    let config = RetryConfig::new(0, 10);
    let run = RetryRun::new(&config);
    assert!(!run.wants_attempt());
    match run.give_up() {
        DeliveryError::Transient(m) => assert_eq!(m, "max retries exceeded"),
        other => panic!("unexpected {:?}", other),
    }
}

#[test]
fn backoff_ceiling_doubles_then_caps() {
    let config = RetryConfig::default();
    assert_eq!(config.backoff_ceiling(0), 100);
    assert_eq!(config.backoff_ceiling(1), 200);
    assert_eq!(config.backoff_ceiling(3), 800);
    assert_eq!(config.backoff_ceiling(8), 25_600);
    assert_eq!(config.backoff_ceiling(9), 30_000);
    assert_eq!(config.backoff_ceiling(40), 30_000);
    let wide = RetryConfig { max_attempts: 5, base_delay_ms: 1, max_delay_ms: u64::MAX };
    assert_eq!(wide.backoff_ceiling(20), 1 << 20);
    assert_eq!(wide.backoff_ceiling(33), 1 << 20);
    let huge = RetryConfig { max_attempts: 5, base_delay_ms: u64::MAX, max_delay_ms: u64::MAX };
    assert_eq!(huge.backoff_ceiling(1), u64::MAX);
}

#[test]
fn backoff_never_shrinks_and_never_exceeds_cap() {
    let config = RetryConfig::new(10, 7);
    let mut prev = 0;
    for a in 0..40u32 {
        let c = config.backoff_ceiling(a);
        assert!(c >= prev && c <= config.max_delay_ms);
        prev = c;
    }
}

#[test]
fn jittered_delay_stays_under_ceiling_and_varies() {
    let config = RetryConfig { max_attempts: 5, base_delay_ms: 1_000_000, max_delay_ms: 1_000_000 };
    let mut seen_below = false;
    for _ in 0..200 {
        let d = config.delay_for_attempt(0);
        assert!(d <= 1_000_000);
        if d < 1_000_000 {
            seen_below = true;
        }
    }
    assert!(seen_below);
    let zero = RetryConfig { max_attempts: 5, base_delay_ms: 0, max_delay_ms: 30_000 };
    assert_eq!(zero.delay_for_attempt(3), 0);
}
