use opencowork::delivery::{DeliveryError, ErrorClass, RetryConfig};

#[test]
fn test_error_classification() {
    let t = DeliveryError::Transient("timeout".into());
    assert!(t.is_retryable());
    assert_eq!(t.classify(), ErrorClass::Transient);

    let p = DeliveryError::Permanent("bad auth".into());
    assert!(!p.is_retryable());
    assert_eq!(p.classify(), ErrorClass::Permanent);

    let r = DeliveryError::RateLimited { retry_after_ms: 1000 };
    assert!(r.is_retryable());
    assert_eq!(r.classify(), ErrorClass::RateLimited);
}

#[test]
fn delivery_error_messages() {
    assert_eq!(DeliveryError::Transient("timeout".into()).message(), "transient delivery error: timeout");
    assert_eq!(DeliveryError::Permanent("bad auth".into()).message(), "permanent delivery error: bad auth");
    assert_eq!(
        DeliveryError::RateLimited { retry_after_ms: 1000 }.message(),
        "rate limited, retry after 1000ms"
    );
    assert_eq!(DeliveryError::RateLimited { retry_after_ms: 0 }.message(), "rate limited, retry after 0ms");
}

#[test]
fn error_class_names() {
    assert_eq!(ErrorClass::Transient.as_str(), "transient");
    assert_eq!(ErrorClass::Permanent.as_str(), "permanent");
    assert_eq!(ErrorClass::RateLimited.as_str(), "rate_limited");
}

#[test]
fn retry_config_constructors() {
    let c = RetryConfig::new(3, 10);
    assert_eq!((c.max_attempts, c.base_delay_ms, c.max_delay_ms), (3, 10, 30_000));
    let d = RetryConfig::default();
    assert_eq!((d.max_attempts, d.base_delay_ms, d.max_delay_ms), (5, 100, 30_000));
}
