//! Tests of the circuit breaker and the operation bookkeeping types.

use nodus_engine::orchestrator::CircuitBreaker;
use nodus_engine::orchestrator::CircuitBreakerState;
use nodus_engine::orchestrator::PerformanceBudget;
use nodus_engine::orchestrator::ResourceUsage;

fn fresh_breaker() -> CircuitBreaker {
    CircuitBreaker {
        operation_pattern: "test_op".to_string(),
        failure_threshold: 5,
        timeout_seconds: 60,
        current_failures: 0,
        state: CircuitBreakerState::Closed,
        last_failure_time: None,
        success_count_after_half_open: 0,
    }
}

#[test]
fn test_circuit_breaker_creation() {
    let breaker = CircuitBreaker {
        operation_pattern: "test_op".to_string(),
        failure_threshold: 5,
        timeout_seconds: 60,
        current_failures: 0,
        state: CircuitBreakerState::Closed,
        last_failure_time: None,
        success_count_after_half_open: 0,
    };

    assert_eq!(breaker.state, CircuitBreakerState::Closed);
    assert_eq!(breaker.failure_threshold, 5);
}

#[test]
fn breaker_opens_at_failure_threshold() {
    let mut b = fresh_breaker();
    for now in 0..4 {
        b.update(false, now);
        assert_eq!(b.state, CircuitBreakerState::Closed);
    }
    b.update(false, 4);
    assert_eq!(b.state, CircuitBreakerState::Open);
    assert_eq!(b.current_failures, 5);
    assert_eq!(b.last_failure_time, Some(4));
}

#[test]
fn breaker_success_resets_failure_count() {
    let mut b = fresh_breaker();
    b.update(false, 0);
    b.update(false, 1);
    b.update(true, 2);
    assert_eq!(b.current_failures, 0);
    assert_eq!(b.state, CircuitBreakerState::Closed);
}

#[test]
fn breaker_probes_half_open_after_timeout_and_recloses() {
    let mut b = fresh_breaker();
    for now in 0..5 {
        b.update(false, now);
    }
    assert_eq!(b.state, CircuitBreakerState::Open);
    assert!(!b.is_open(10));
    assert!(b.is_open(100));
    // After the timeout, the next recorded outcome moves it to half-open.
    b.update(true, 100);
    assert_eq!(b.state, CircuitBreakerState::HalfOpen);
    // Three successes close it again.
    b.update(true, 101);
    b.update(true, 102);
    b.update(true, 103);
    assert_eq!(b.state, CircuitBreakerState::Closed);
    assert_eq!(b.current_failures, 0);
}

#[test]
fn breaker_half_open_failure_reopens() {
    let mut b = fresh_breaker();
    for now in 0..5 {
        b.update(false, now);
    }
    b.update(true, 100);
    assert_eq!(b.state, CircuitBreakerState::HalfOpen);
    b.update(false, 101);
    assert_eq!(b.state, CircuitBreakerState::Open);
    assert_eq!(b.last_failure_time, Some(101));
}

#[test]
fn performance_budget_checks_duration() {
    let budget = PerformanceBudget::new(5000, "op", false);
    assert_eq!(budget.max_duration_ms, 5000);
    assert_eq!(budget.operation_name, "op");
    assert!(!budget.critical);
    assert!(budget.within_budget(5000));
    assert!(!budget.within_budget(5001));
}

#[test]
fn resource_usage_defaults_to_zero() {
    let u = ResourceUsage::default();
    assert_eq!(u.cpu_time_ms, 0);
    assert_eq!(u.memory_bytes, 0);
    assert_eq!(u.disk_io_bytes, 0);
    assert_eq!(u.network_io_bytes, 0);
}
