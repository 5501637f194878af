//! Bookkeeping types of the async operation gateway, and the circuit
//! breaker that guards unreliable operations. The breaker's transitions are
//! a pure function of its state, the outcome of a call, and the clock
//! reading the runner hands in; the runner itself (timeouts, retries,
//! awaiting) lives with the embedding application.

use vstd::prelude::*;

verus! {

/// Execution status of an asynchronous operation.
#[derive(Debug, Clone, PartialEq, Eq, Structural)]
pub enum OperationStatus {
    Queued,
    Running,
    Completed,
    Failed,
    Cancelled,
    TimedOut,
    CircuitBreakerOpen,
}

/// Scheduling priority of an operation.
#[derive(Debug, Clone, PartialEq, Eq, Structural)]
pub enum OperationPriority {
    Critical,
    High,
    Normal,
    Low,
    Background,
}

/// Data classification attached to an operation.
#[derive(Debug, Clone, PartialEq, Eq, Structural)]
pub enum ClassificationLevel {
    Public,
    Internal,
    Confidential,
    Secret,
}

/// Per-operation resource accounting.
#[derive(Debug, Clone)]
pub struct ResourceUsage {
    pub cpu_time_ms: u64,
    pub memory_bytes: u64,
    pub disk_io_bytes: u64,
    pub network_io_bytes: u64,
}

impl Default for ResourceUsage {
    /// Zero usage on every axis.
    fn default() -> (r: ResourceUsage)
        ensures
            r.cpu_time_ms == 0,
            r.memory_bytes == 0,
            r.disk_io_bytes == 0,
            r.network_io_bytes == 0,
    {
        ResourceUsage { cpu_time_ms: 0, memory_bytes: 0, disk_io_bytes: 0, network_io_bytes: 0 }
    }
}

/// How one operation execution went.
#[derive(Debug, Clone)]
pub struct ExecutionMetadata {
    pub operation_id: String,
    pub duration_ms: u64,
    pub retry_attempts: u32,
    pub circuit_breaker_state: String,
    pub resource_usage: ResourceUsage,
    pub performance_budget_status: String,
    pub observability_applied: bool,
}

/// Outcome record of a tracked asynchronous operation.
#[derive(Debug)]
pub struct OperationResult {
    pub operation_id: String,
    pub success: bool,
    pub result: Option<String>,
    pub error: Option<String>,
    pub duration_ms: u64,
}

/// A per-operation time budget.
#[derive(Debug, Clone)]
pub struct PerformanceBudget {
    pub max_duration_ms: u64,
    pub operation_name: String,
    pub critical: bool,
}

impl PerformanceBudget {
    /// A budget of `max_duration_ms` for the named operation.
    pub fn new(max_duration_ms: u64, operation_name: &str, critical: bool) -> (r:
        PerformanceBudget)
        ensures
            r.max_duration_ms == max_duration_ms,
            r.operation_name@ == operation_name@,
            r.critical == critical,
    {
        PerformanceBudget { max_duration_ms, operation_name: operation_name.to_owned(), critical }
    }

    /// Whether an observed duration stayed within the budget.
    pub fn within_budget(&self, duration_ms: u64) -> (r: bool)
        ensures
            r == (duration_ms <= self.max_duration_ms),
    {
        duration_ms <= self.max_duration_ms
    }
}

/// States of a circuit breaker: normal flow, failing fast, and probing
/// whether the guarded operation has recovered.
#[derive(Debug, Clone, PartialEq, Eq, Structural)]
pub enum CircuitBreakerState {
    Closed,
    Open,
    HalfOpen,
}

/// A circuit breaker guarding one operation pattern. Time enters only as
/// the second-resolution clock readings the caller passes in.
#[derive(Debug, Clone)]
pub struct CircuitBreaker {
    pub operation_pattern: String,
    pub failure_threshold: u32,
    pub timeout_seconds: u64,
    pub current_failures: u32,
    pub state: CircuitBreakerState,
    pub last_failure_time: Option<u64>,
    pub success_count_after_half_open: u32,
}

/// Seconds elapsed from `last` to `now`, clamped at zero.
pub open spec fn elapsed_secs(last: u64, now: u64) -> int {
    if now >= last {
        now - last
    } else {
        0
    }
}

/// Consecutive half-open successes after which the breaker closes again.
pub const HALF_OPEN_SUCCESSES_TO_CLOSE: u32 = 3;

/// The breaker after recording one outcome at clock reading `now_secs`:
/// a closed breaker counts consecutive failures and opens at the
/// threshold; a half-open breaker closes after enough successes and
/// reopens on any failure; an open breaker waits out its timeout and then
/// probes half-open.
pub open spec fn breaker_step(b: CircuitBreaker, success: bool, now_secs: u64) -> CircuitBreaker {
    match b.state {
        CircuitBreakerState::Closed => {
            if success {
                CircuitBreaker { current_failures: 0, ..b }
            } else {
                let failures = b.current_failures + 1;
                CircuitBreaker {
                    current_failures: failures as u32,
                    last_failure_time: Some(now_secs),
                    state: if failures >= b.failure_threshold {
                        CircuitBreakerState::Open
                    } else {
                        CircuitBreakerState::Closed
                    },
                    ..b
                }
            }
        },
        CircuitBreakerState::HalfOpen => {
            if success {
                let successes = b.success_count_after_half_open + 1;
                if successes >= HALF_OPEN_SUCCESSES_TO_CLOSE {
                    CircuitBreaker {
                        state: CircuitBreakerState::Closed,
                        current_failures: 0,
                        success_count_after_half_open: 0,
                        ..b
                    }
                } else {
                    CircuitBreaker { success_count_after_half_open: successes as u32, ..b }
                }
            } else {
                CircuitBreaker {
                    state: CircuitBreakerState::Open,
                    current_failures: (b.current_failures + 1) as u32,
                    last_failure_time: Some(now_secs),
                    ..b
                }
            }
        },
        CircuitBreakerState::Open => {
            match b.last_failure_time {
                Some(last) => {
                    if elapsed_secs(last, now_secs) >= b.timeout_seconds {
                        CircuitBreaker {
                            state: CircuitBreakerState::HalfOpen,
                            success_count_after_half_open: 0,
                            ..b
                        }
                    } else {
                        b
                    }
                },
                None => b,
            }
        },
    }
}

impl CircuitBreaker {
    /// Whether calls should currently fail fast. An open breaker without a
    /// recorded failure time reports open; one whose timeout has run out
    /// reports as the recorded transition logic sees it.
    pub fn is_open(&self, now_secs: u64) -> (r: bool)
        ensures
            r == (self.state == CircuitBreakerState::Open && match self.last_failure_time {
                Some(last) => elapsed_secs(last, now_secs) >= self.timeout_seconds,
                None => true,
            }),
    {
        match self.state {
            CircuitBreakerState::Open => {
                match self.last_failure_time {
                    Some(last) => {
                        let elapsed = if now_secs >= last {
                            now_secs - last
                        } else {
                            0
                        };
                        elapsed >= self.timeout_seconds
                    },
                    None => true,
                }
            },
            _ => false,
        }
    }

    /// Records the outcome of one guarded call at clock reading
    /// `now_secs`, stepping the breaker's state machine.
    pub fn update(&mut self, success: bool, now_secs: u64)
        requires
            old(self).current_failures < u32::MAX,
            old(self).success_count_after_half_open < u32::MAX,
        ensures
            *final(self) == breaker_step(*old(self), success, now_secs),
    {
        match self.state {
            CircuitBreakerState::Closed => {
                if success {
                    self.current_failures = 0;
                } else {
                    self.current_failures = self.current_failures + 1;
                    self.last_failure_time = Some(now_secs);
                    if self.current_failures >= self.failure_threshold {
                        self.state = CircuitBreakerState::Open;
                    }
                }
            },
            CircuitBreakerState::HalfOpen => {
                if success {
                    self.success_count_after_half_open = self.success_count_after_half_open + 1;
                    if self.success_count_after_half_open >= HALF_OPEN_SUCCESSES_TO_CLOSE {
                        self.state = CircuitBreakerState::Closed;
                        self.current_failures = 0;
                        self.success_count_after_half_open = 0;
                    }
                } else {
                    self.state = CircuitBreakerState::Open;
                    self.current_failures = self.current_failures + 1;
                    self.last_failure_time = Some(now_secs);
                }
            },
            CircuitBreakerState::Open => {
                match self.last_failure_time {
                    Some(last) => {
                        let elapsed = if now_secs >= last {
                            now_secs - last
                        } else {
                            0
                        };
                        if elapsed >= self.timeout_seconds {
                            self.state = CircuitBreakerState::HalfOpen;
                            self.success_count_after_half_open = 0;
                        }
                    },
                    None => {},
                }
            },
        }
    }
}

} // verus!
