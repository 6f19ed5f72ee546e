//! The error surface of the library and the classification of Redis failures.

use vstd::prelude::*;

use crate::time::Duration;
use crate::types::JobState;

verus! {

#[verifier::external_type_specification]
#[verifier::external_body]
pub struct ExRedisError(redis::RedisError);

/// Whether a Redis error was caused by an I/O time-out, as `RedisError::is_timeout`
/// answers from the underlying I/O error.
pub uninterp spec fn redis_error_times_out(error: redis::RedisError) -> bool;

/// Whether a Redis error is a refused connection, as `RedisError::is_connection_refusal`
/// answers.
pub uninterp spec fn redis_error_refuses_connection(error: redis::RedisError) -> bool;

/// Whether a Redis error is a dropped connection, as `RedisError::is_connection_dropped`
/// answers.
pub uninterp spec fn redis_error_drops_connection(error: redis::RedisError) -> bool;

/// Trusted: `redis::RedisError::is_timeout`. The answer depends on the error alone; it is
/// named, not stated.
#[verifier::external_body]
fn redis_error_is_timeout(error: &redis::RedisError) -> (b: bool)
    ensures
        b == redis_error_times_out(*error),
{
    error.is_timeout()
}

/// Trusted: `redis::RedisError::is_connection_refusal`. The answer depends on the error
/// alone; it is named, not stated.
#[verifier::external_body]
fn redis_error_is_connection_refusal(error: &redis::RedisError) -> (b: bool)
    ensures
        b == redis_error_refuses_connection(*error),
{
    error.is_connection_refusal()
}

/// Trusted: `redis::RedisError::is_connection_dropped`. The answer depends on the error
/// alone; it is named, not stated.
#[verifier::external_body]
fn redis_error_is_connection_dropped(error: &redis::RedisError) -> (b: bool)
    ensures
        b == redis_error_drops_connection(*error),
{
    error.is_connection_dropped()
}

/// A Redis failure together with the transport classification that the worker runtime
/// reads: whether it was a time-out, a refused connection or a dropped connection.
#[derive(Debug)]
pub struct RedisFault {
    pub error: redis::RedisError,
    pub timeout: bool,
    pub connection_refusal: bool,
    pub connection_dropped: bool,
}

impl RedisFault {
    /// Classifies a Redis error once, keeping the error itself as the source.
    pub fn from_error(error: redis::RedisError) -> (fault: RedisFault)
        ensures
            fault.error == error,
            fault.timeout == redis_error_times_out(error),
            fault.connection_refusal == redis_error_refuses_connection(error),
            fault.connection_dropped == redis_error_drops_connection(error),
    {
        let timeout = redis_error_is_timeout(&error);
        let connection_refusal = redis_error_is_connection_refusal(&error);
        let connection_dropped = redis_error_is_connection_dropped(&error);
        RedisFault { error, timeout, connection_refusal, connection_dropped }
    }

    /// Whether the failure is of the transport: a time-out, a refusal or a dropped connection.
    pub open spec fn is_transport(&self) -> bool {
        self.timeout || self.connection_refusal || self.connection_dropped
    }
}

/// Public Redloop error surface.
#[derive(Debug)]
pub enum Error {
    JobIdTooLong { length: usize },
    InvalidState { job_id: String, state: JobState },
    NotFound { job_id: String },
    LeaseMismatch { job_id: String },
    InvalidConfig { kind: InvalidConfigKind },
    InvalidCursor { cursor: String },
    InvalidTimestamp { micros: i64 },
    InvalidData { field: &'static str },
    Redis { operation: &'static str, source: RedisFault },
    CommandTimedOut { operation: &'static str, timeout_ms: u64 },
    WorkerTaskJoin { message: String },
}

/// The value of an error as the contracts speak of it: its variant and its plain fields.
pub ghost enum ErrorView {
    JobIdTooLong { length: usize },
    InvalidState { job_id: Seq<char>, state: JobState },
    NotFound { job_id: Seq<char> },
    LeaseMismatch { job_id: Seq<char> },
    InvalidConfig { kind: InvalidConfigKind },
    InvalidCursor { cursor: Seq<char> },
    InvalidTimestamp { micros: i64 },
    InvalidData { field: Seq<char> },
    Redis { operation: Seq<char>, transport: bool },
    CommandTimedOut { operation: Seq<char>, timeout_ms: u64 },
    WorkerTaskJoin { message: Seq<char> },
}

impl View for Error {
    type V = ErrorView;

    open spec fn view(&self) -> ErrorView {
        match self {
            Error::JobIdTooLong { length } => ErrorView::JobIdTooLong { length: *length },
            Error::InvalidState { job_id, state } => ErrorView::InvalidState { job_id: job_id@, state: *state },
            Error::NotFound { job_id } => ErrorView::NotFound { job_id: job_id@ },
            Error::LeaseMismatch { job_id } => ErrorView::LeaseMismatch { job_id: job_id@ },
            Error::InvalidConfig { kind } => ErrorView::InvalidConfig { kind: *kind },
            Error::InvalidCursor { cursor } => ErrorView::InvalidCursor { cursor: cursor@ },
            Error::InvalidTimestamp { micros } => ErrorView::InvalidTimestamp { micros: *micros },
            Error::InvalidData { field } => ErrorView::InvalidData { field: field@ },
            Error::Redis { operation, source } => ErrorView::Redis { operation: operation@, transport: source.is_transport() },
            Error::CommandTimedOut { operation, timeout_ms } => ErrorView::CommandTimedOut { operation: operation@, timeout_ms: *timeout_ms },
            Error::WorkerTaskJoin { message } => ErrorView::WorkerTaskJoin { message: message@ },
        }
    }
}

/// A result with its error taken by its view.
pub open spec fn result_view<T>(r: core::result::Result<T, Error>) -> core::result::Result<T, ErrorView> {
    match r {
        Ok(v) => Ok(v),
        Err(e) => Err(e@),
    }
}

/// Crate-wide result type.
pub type Result<T> = core::result::Result<T, Error>;

/// Structured invalid configuration kinds.
#[derive(Debug, Clone, Copy, PartialEq, Eq, Structural)]
pub enum InvalidConfigKind {
    ConcurrencyZero,
    LeaseDurationZero,
    HeartbeatIntervalZero,
    HeartbeatNotShorterThanLease,
    ReapIntervalZero,
    PollIntervalMinZero,
    PollIntervalRange,
    EmptyRedisNodes,
    EmptySentinelServiceName,
    RetryPolicyMismatch,
}

/// The operator-facing description of an invalid configuration kind.
pub open spec fn invalid_config_message(kind: InvalidConfigKind) -> Seq<char> {
    match kind {
        InvalidConfigKind::ConcurrencyZero => "worker concurrency must be greater than zero"@,
        InvalidConfigKind::LeaseDurationZero => "lease_duration must be greater than zero"@,
        InvalidConfigKind::HeartbeatIntervalZero => "heartbeat_interval must be greater than zero"@,
        InvalidConfigKind::HeartbeatNotShorterThanLease => "heartbeat_interval must be shorter than lease_duration"@,
        InvalidConfigKind::ReapIntervalZero => "reap_interval must be greater than zero"@,
        InvalidConfigKind::PollIntervalMinZero => "poll_interval_min must be greater than zero"@,
        InvalidConfigKind::PollIntervalRange => "poll_interval_min must be less than or equal to poll_interval_max"@,
        InvalidConfigKind::EmptyRedisNodes => "redis deployment requires at least one node"@,
        InvalidConfigKind::EmptySentinelServiceName => "sentinel deployment requires a service_name"@,
        InvalidConfigKind::RetryPolicyMismatch => "worker retry_policy does not match the namespace retry_policy"@,
    }
}

impl InvalidConfigKind {
    /// The operator-facing description of the kind.
    pub fn message(&self) -> (s: &'static str)
        ensures
            s@ == invalid_config_message(*self),
    {
        match self {
            InvalidConfigKind::ConcurrencyZero => "worker concurrency must be greater than zero",
            InvalidConfigKind::LeaseDurationZero => "lease_duration must be greater than zero",
            InvalidConfigKind::HeartbeatIntervalZero => "heartbeat_interval must be greater than zero",
            InvalidConfigKind::HeartbeatNotShorterThanLease => "heartbeat_interval must be shorter than lease_duration",
            InvalidConfigKind::ReapIntervalZero => "reap_interval must be greater than zero",
            InvalidConfigKind::PollIntervalMinZero => "poll_interval_min must be greater than zero",
            InvalidConfigKind::PollIntervalRange => "poll_interval_min must be less than or equal to poll_interval_max",
            InvalidConfigKind::EmptyRedisNodes => "redis deployment requires at least one node",
            InvalidConfigKind::EmptySentinelServiceName => "sentinel deployment requires a service_name",
            InvalidConfigKind::RetryPolicyMismatch => "worker retry_policy does not match the namespace retry_policy",
        }
    }
}

impl Error {
    /// Whether the worker runtime backs off and retries after this error rather than
    /// stopping: a command time-out, or a Redis failure of the transport.
    pub open spec fn recoverable_worker_runtime(&self) -> bool {
        match self {
            Error::CommandTimedOut { .. } => true,
            Error::Redis { source, .. } => source.is_transport(),
            _ => false,
        }
    }

    /// Whether the worker runtime backs off and retries after this error.
    pub fn is_recoverable_worker_runtime(&self) -> (b: bool)
        ensures
            b == self.recoverable_worker_runtime(),
    {
        match self {
            Error::CommandTimedOut { .. } => true,
            Error::Redis { source, .. } => {
                source.timeout || source.connection_refusal || source.connection_dropped
            },
            _ => false,
        }
    }

    /// Whether the error reports a lost lease.
    pub fn is_lease_mismatch(&self) -> (b: bool)
        ensures
            b == (*self is LeaseMismatch),
    {
        match self {
            Error::LeaseMismatch { .. } => true,
            _ => false,
        }
    }
}

/// The command deadline elapsed before Redis answered.
#[derive(Debug, Clone, Copy, PartialEq, Eq, Structural)]
pub struct CommandElapsed;

/// A command deadline in whole milliseconds, capped at `u64::MAX`.
pub open spec fn timeout_millis(command_timeout: Duration) -> nat {
    if command_timeout@ / 1_000_000 <= u64::MAX {
        command_timeout@ / 1_000_000
    } else {
        u64::MAX as nat
    }
}

/// Normalizes a command's outcome: either timer winning the race becomes
/// `CommandTimedOut`, other Redis failures keep their source.
pub fn command_result<T>(
    operation: &'static str,
    command_timeout: Duration,
    response: core::result::Result<core::result::Result<T, RedisFault>, CommandElapsed>,
) -> (r: Result<T>)
    ensures
        match response {
            Ok(Ok(value)) => r == Ok::<T, Error>(value),
            Ok(Err(fault)) => if !fault.timeout {
                r == Err::<T, Error>(Error::Redis { operation, source: fault })
            } else {
                r == Err::<T, Error>(Error::CommandTimedOut { operation, timeout_ms: timeout_millis(command_timeout) as u64 })
            },
            Err(_) => r == Err::<T, Error>(Error::CommandTimedOut { operation, timeout_ms: timeout_millis(command_timeout) as u64 }),
        },
{
    let millis = command_timeout.as_millis();
    let timeout_ms: u64 = if millis <= 0xffff_ffff_ffff_ffff { millis as u64 } else { 0xffff_ffff_ffff_ffff };
    match response {
        Ok(Ok(value)) => Ok(value),
        Ok(Err(source)) => {
            if !source.timeout {
                Err(Error::Redis { operation, source })
            } else {
                Err(Error::CommandTimedOut { operation, timeout_ms })
            }
        },
        Err(_) => Err(Error::CommandTimedOut { operation, timeout_ms }),
    }
}

} // verus!
