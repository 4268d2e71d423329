use gane::mesh::circuit::{CircuitBreaker, CircuitConfig, CircuitState};

fn default_breaker() -> CircuitBreaker {
    CircuitBreaker::new(
        "test",
        CircuitConfig {
            failure_threshold: 3,
            open_duration_ms: 5000,
            half_open_max_requests: 2,
            recovery_threshold: 2,
        },
    )
}

#[test]
fn test_closed_allows_requests() {
    let mut cb = default_breaker();
    assert!(cb.allow_request(1000));
    assert_eq!(cb.state(), CircuitState::Closed);
}

#[test]
fn test_trips_after_threshold_failures() {
    let mut cb = default_breaker();
    cb.allow_request(1000);
    cb.record_failure(1000);
    cb.allow_request(1000);
    cb.record_failure(1000);
    assert_eq!(cb.state(), CircuitState::Closed);
    cb.allow_request(1000);
    cb.record_failure(1000);
    assert_eq!(cb.state(), CircuitState::Open);
    assert_eq!(cb.trip_count(), 1);
}

#[test]
fn test_open_blocks_requests() {
    let mut cb = default_breaker();
    for _ in 0..3 {
        cb.allow_request(1000);
        cb.record_failure(1000);
    }
    assert!(!cb.allow_request(2000));
    assert_eq!(cb.blocked_count(), 1);
}

#[test]
fn test_open_transitions_to_half_open() {
    let mut cb = default_breaker();
    for _ in 0..3 {
        cb.allow_request(1000);
        cb.record_failure(1000);
    }
    assert!(cb.allow_request(6000));
    assert_eq!(cb.state(), CircuitState::HalfOpen);
}

#[test]
fn test_half_open_recovers_on_successes() {
    let mut cb = default_breaker();
    for _ in 0..3 {
        cb.allow_request(1000);
        cb.record_failure(1000);
    }
    assert!(cb.allow_request(6000));
    cb.record_success();
    assert!(cb.allow_request(6000));
    cb.record_success();
    assert_eq!(cb.state(), CircuitState::Closed);
}

#[test]
fn test_half_open_trips_on_failure() {
    let mut cb = default_breaker();
    for _ in 0..3 {
        cb.allow_request(1000);
        cb.record_failure(1000);
    }
    cb.allow_request(6000);
    cb.record_failure(6000);
    assert_eq!(cb.state(), CircuitState::Open);
    assert_eq!(cb.trip_count(), 2);
}

#[test]
fn test_half_open_limits_requests() {
    let mut cb = default_breaker();
    for _ in 0..3 {
        cb.allow_request(1000);
        cb.record_failure(1000);
    }
    assert!(cb.allow_request(6000));
    assert!(cb.allow_request(6000));
    assert!(!cb.allow_request(6000));
}

#[test]
fn test_success_resets_failure_count() {
    let mut cb = default_breaker();
    cb.allow_request(1000);
    cb.record_failure(1000);
    cb.allow_request(1000);
    cb.record_failure(1000);
    assert_eq!(cb.failure_count(), 2);
    cb.allow_request(1000);
    cb.record_success();
    assert_eq!(cb.failure_count(), 0);
}

#[test]
fn test_manual_reset() {
    let mut cb = default_breaker();
    for _ in 0..3 {
        cb.allow_request(1000);
        cb.record_failure(1000);
    }
    assert_eq!(cb.state(), CircuitState::Open);
    cb.reset();
    assert_eq!(cb.state(), CircuitState::Closed);
    assert!(cb.allow_request(1000));
}

#[test]
fn breaker_totals_and_default_config() {
    let cfg = CircuitConfig::default();
    assert_eq!(cfg.failure_threshold, 5);
    assert_eq!(cfg.open_duration_ms, 30_000);
    let mut cb = CircuitBreaker::new("svc", cfg);
    assert_eq!(cb.name(), "svc");
    cb.record_success();
    cb.record_failure(10);
    assert_eq!(cb.total_successes(), 1);
    assert_eq!(cb.total_failures(), 1);
    // still blocked just before the open duration elapses
    for _ in 0..4 {
        cb.record_failure(10);
    }
    assert_eq!(cb.state(), CircuitState::Open);
    assert!(!cb.allow_request(30_009));
    assert!(cb.allow_request(30_010));
}
