//! The error taxonomy with its recovery categorization, a circuit breaker
//! for failing fast after repeated failures, and a rollback ledger that hands
//! recorded operations back in reverse submission order.
//!
//! Times enter as plain millisecond counts; reading the clock is the
//! surrounding program's job.

use vstd::prelude::*;

verus! {

/// The error cases of the tool.
#[derive(Debug)]
pub enum SolarboatError {
    /// File system related errors.
    FileSystem { operation: String, path: String, cause: String },
    /// Provisioning-tool operation errors.
    Terraform {
        operation: String,
        module: String,
        workspace: Option<String>,
        cause: String,
        is_transient: bool,
    },
    /// Process execution errors.
    Process { command: String, args: Vec<String>, cause: String, exit_code: Option<i32> },
    /// Lock acquisition errors.
    Lock { resource: String, timeout_ms: u64, cause: String },
    /// Configuration errors.
    Configuration { field: String, value: String, cause: String },
    /// Network/API errors.
    Network { endpoint: String, cause: String, is_transient: bool },
    /// State management errors.
    State { operation: String, cause: String },
    /// Validation errors.
    Validation { field: String, value: String, cause: String },
}

/// Error categorization for recovery strategies.
#[derive(PartialEq, Eq, Structural, Clone, Copy, Debug)]
pub enum ErrorCategory {
    /// Temporary errors that can be retried.
    Transient,
    /// Permanent errors that should not be retried.
    Permanent,
    /// Configuration errors that need user intervention.
    Configuration,
    /// System-level errors.
    System,
}

/// The category of each error case: lock timeouts and transient
/// provisioning/network errors are transient; configuration and validation
/// errors need intervention; file system, process and state errors are
/// system-level.
pub open spec fn category_spec(e: SolarboatError) -> ErrorCategory {
    match e {
        SolarboatError::FileSystem { .. } => ErrorCategory::System,
        SolarboatError::Terraform { is_transient, .. } => if is_transient {
            ErrorCategory::Transient
        } else {
            ErrorCategory::Permanent
        },
        SolarboatError::Process { .. } => ErrorCategory::System,
        SolarboatError::Lock { .. } => ErrorCategory::Transient,
        SolarboatError::Configuration { .. } => ErrorCategory::Configuration,
        SolarboatError::Network { is_transient, .. } => if is_transient {
            ErrorCategory::Transient
        } else {
            ErrorCategory::Permanent
        },
        SolarboatError::State { .. } => ErrorCategory::System,
        SolarboatError::Validation { .. } => ErrorCategory::Configuration,
    }
}

impl SolarboatError {
    /// The recovery category of this error.
    pub fn category(&self) -> (r: ErrorCategory)
        ensures
            r == category_spec(*self),
    {
        match self {
            SolarboatError::FileSystem { .. } => ErrorCategory::System,
            SolarboatError::Terraform { is_transient, .. } => {
                if *is_transient {
                    ErrorCategory::Transient
                } else {
                    ErrorCategory::Permanent
                }
            },
            SolarboatError::Process { .. } => ErrorCategory::System,
            SolarboatError::Lock { .. } => ErrorCategory::Transient,
            SolarboatError::Configuration { .. } => ErrorCategory::Configuration,
            SolarboatError::Network { is_transient, .. } => {
                if *is_transient {
                    ErrorCategory::Transient
                } else {
                    ErrorCategory::Permanent
                }
            },
            SolarboatError::State { .. } => ErrorCategory::System,
            SolarboatError::Validation { .. } => ErrorCategory::Configuration,
        }
    }

    /// Whether a retry can help: exactly the transient errors.
    pub fn is_retryable(&self) -> (r: bool)
        ensures
            r == (category_spec(*self) == ErrorCategory::Transient),
    {
        self.category() == ErrorCategory::Transient
    }
}

/// The states of the circuit breaker.
#[derive(PartialEq, Eq, Structural, Clone, Copy, Debug)]
pub enum CircuitState {
    /// Normal operation.
    Closed,
    /// The circuit is open: calls fail fast.
    Open,
    /// Testing whether the service recovered.
    HalfOpen,
}

/// Prevents cascading failures: after `failure_threshold` consecutive
/// failures the circuit opens; once `recovery_timeout_ms` has passed since
/// the last failure, one probe is let through (half-open), and its outcome
/// closes or re-opens the circuit.
pub struct CircuitBreaker {
    pub failure_threshold: usize,
    pub recovery_timeout_ms: u64,
    pub last_failure_time_ms: Option<u64>,
    pub failure_count: usize,
    pub state: CircuitState,
}

impl CircuitBreaker {
    /// A closed breaker with no recorded failures.
    pub fn new(failure_threshold: usize, recovery_timeout_ms: u64) -> (r: CircuitBreaker)
        ensures
            r.failure_threshold == failure_threshold,
            r.recovery_timeout_ms == recovery_timeout_ms,
            r.last_failure_time_ms is None,
            r.failure_count == 0,
            r.state == CircuitState::Closed,
    {
        CircuitBreaker {
            failure_threshold,
            recovery_timeout_ms,
            last_failure_time_ms: None,
            failure_count: 0,
            state: CircuitState::Closed,
        }
    }

    /// Whether a call may proceed now: always when closed or half-open; when
    /// open, only once the recovery timeout has elapsed since the last
    /// failure, which moves the breaker to half-open.
    pub fn can_execute(&mut self, now_ms: u64) -> (r: bool)
        ensures
            old(self).state == CircuitState::Closed ==> r && *final(self) == *old(self),
            old(self).state == CircuitState::HalfOpen ==> r && *final(self) == *old(self),
            old(self).state == CircuitState::Open ==> match old(self).last_failure_time_ms {
                Some(t) => if t <= now_ms && now_ms - t >= old(self).recovery_timeout_ms {
                    r && final(self).state == CircuitState::HalfOpen && final(self).failure_threshold == old(self).failure_threshold && final(self).recovery_timeout_ms == old(self).recovery_timeout_ms && final(self).last_failure_time_ms == old(self).last_failure_time_ms && final(self).failure_count == old(self).failure_count
                } else {
                    !r && *final(self) == *old(self)
                },
                None => !r && *final(self) == *old(self),
            },
    {
        match self.state {
            CircuitState::Closed => true,
            CircuitState::Open => {
                match self.last_failure_time_ms {
                    Some(t) => {
                        if t <= now_ms && now_ms - t >= self.recovery_timeout_ms {
                            self.state = CircuitState::HalfOpen;
                            true
                        } else {
                            false
                        }
                    },
                    None => false,
                }
            },
            CircuitState::HalfOpen => true,
        }
    }

    /// Records a success: a closed breaker clears its failure count; a
    /// half-open breaker closes and clears everything; an open breaker is
    /// unchanged.
    pub fn on_success(&mut self)
        ensures
            final(self).failure_threshold == old(self).failure_threshold,
            final(self).recovery_timeout_ms == old(self).recovery_timeout_ms,
            old(self).state == CircuitState::Closed ==> final(self).state == CircuitState::Closed
                && final(self).failure_count == 0 && final(self).last_failure_time_ms == old(self).last_failure_time_ms,
            old(self).state == CircuitState::HalfOpen ==> final(self).state
                == CircuitState::Closed && final(self).failure_count == 0 && final(self).last_failure_time_ms is None,
            old(self).state == CircuitState::Open ==> *final(self) == *old(self),
    {
        match self.state {
            CircuitState::Closed => {
                self.failure_count = 0;
            },
            CircuitState::HalfOpen => {
                self.state = CircuitState::Closed;
                self.failure_count = 0;
                self.last_failure_time_ms = None;
            },
            CircuitState::Open => {},
        }
    }

    /// Records a failure at `now_ms`: the count rises and the failure time is
    /// remembered; a closed breaker opens at the threshold, a half-open
    /// breaker re-opens at once.
    pub fn on_failure(&mut self, now_ms: u64)
        requires
            old(self).failure_count < usize::MAX,
        ensures
            final(self).failure_threshold == old(self).failure_threshold,
            final(self).recovery_timeout_ms == old(self).recovery_timeout_ms,
            final(self).failure_count == old(self).failure_count + 1,
            final(self).last_failure_time_ms == Some(now_ms),
            final(self).state == match old(self).state {
                CircuitState::Closed => if old(self).failure_count + 1 >= old(self).failure_threshold {
                    CircuitState::Open
                } else {
                    CircuitState::Closed
                },
                CircuitState::HalfOpen => CircuitState::Open,
                CircuitState::Open => CircuitState::Open,
            },
    {
        self.failure_count = self.failure_count + 1;
        self.last_failure_time_ms = Some(now_ms);
        match self.state {
            CircuitState::Closed => {
                if self.failure_count >= self.failure_threshold {
                    self.state = CircuitState::Open;
                }
            },
            CircuitState::HalfOpen => {
                self.state = CircuitState::Open;
            },
            CircuitState::Open => {},
        }
    }

    /// The current state.
    pub fn state(&self) -> (r: &CircuitState)
        ensures
            *r == self.state,
    {
        &self.state
    }
}

/// One recorded operation that may have to be undone: what ran, where.
pub struct RollbackOperation {
    pub module: String,
    pub workspace: Option<String>,
    pub operation_type: String,
}

/// The label under which a rollback outcome is reported.
pub open spec fn rollback_label(op: RollbackOperation) -> Seq<char> {
    match op.workspace {
        Some(w) => op.module@ + seq![':'] + w@,
        None => op.module@,
    }
}

/// A ledger of operations to undo on failure, drained in reverse submission
/// order.  What each undo actually does is its caller's business; the ledger
/// only keeps the order straight.
pub struct RollbackContext {
    pub operations: Vec<RollbackOperation>,
}

impl RollbackContext {
    /// An empty ledger.
    pub fn new() -> (r: RollbackContext)
        ensures
            r.operations@.len() == 0,
    {
        RollbackContext { operations: Vec::new() }
    }

    /// Records one operation.
    pub fn add_operation(&mut self, module: String, workspace: Option<String>, operation_type: String)
        ensures
            final(self).operations@ == old(self).operations@.push(
                RollbackOperation { module, workspace, operation_type },
            ),
    {
        self.operations.push(RollbackOperation { module, workspace, operation_type });
    }

    /// Hands the recorded operations back in reverse submission order, each
    /// under its `module` or `module:workspace` label, and empties the
    /// ledger; the caller performs the undo actions.
    pub fn execute_rollback(&mut self) -> (r: Vec<(String, RollbackOperation)>)
        ensures
            final(self).operations@.len() == 0,
            r@.len() == old(self).operations@.len(),
            forall|k: int|
                0 <= k < r@.len() ==> r@[k].1 == old(self).operations@[old(self).operations@.len() - 1 - k],
            forall|k: int| 0 <= k < r@.len() ==> (#[trigger] r@[k].0)@ == rollback_label(r@[k].1),
    {
        let ghost orig = self.operations@;
        let mut results: Vec<(String, RollbackOperation)> = Vec::new();
        loop
            invariant
                orig == old(self).operations@,
                self.operations@.len() + results@.len() == orig.len(),
                self.operations@ == orig.take(self.operations@.len() as int),
                forall|k: int|
                    0 <= k < results@.len() ==> results@[k].1 == orig[orig.len() - 1 - k],
                forall|k: int|
                    0 <= k < results@.len() ==> (#[trigger] results@[k].0)@ == rollback_label(
                        results@[k].1,
                    ),
            decreases self.operations@.len(),
        {
            if self.operations.len() == 0 {
                return results;
            }
            let op = match self.operations.pop() {
                Some(op) => op,
                None => {
                    proof {
                        assert(false);
                    }
                    return results;
                },
            };
            let mut label: Vec<char> = Vec::new();
            crate::text::append_str(&mut label, op.module.as_str());
            match &op.workspace {
                Some(w) => {
                    label.push(':');
                    crate::text::append_str(&mut label, w.as_str());
                    proof {
                        assert(label@ =~= rollback_label(op));
                    }
                },
                None => {
                    proof {
                        assert(label@ =~= rollback_label(op));
                    }
                },
            }
            let label_s = crate::text::string_from_chars(&label);
            results.push((label_s, op));
            proof {
                assert(self.operations@ =~= orig.take(self.operations@.len() as int));
            }
        }
    }

    /// Forgets every recorded operation.
    pub fn clear(&mut self)
        ensures
            final(self).operations@.len() == 0,
    {
        self.operations.clear();
    }
}

} // verus!
