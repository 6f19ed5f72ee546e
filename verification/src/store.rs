//! Requests and replies exchanged between the queue logic and the store.

use vstd::prelude::*;

use crate::config::RetryPolicy;
use crate::time::Timestamp;

verus! {

/// How a scheduled enqueue treats an existing waiting placement.
#[derive(Debug, Clone, Copy, PartialEq, Eq, Structural)]
pub enum ReplaceMode {
    Always,
    IfEarlier,
    IfLater,
}

/// One enqueue mutation.
#[derive(Debug, Clone)]
pub struct EnqueueRequest {
    pub job_id: String,
    pub schedule_at: Option<Timestamp>,
    pub replace_mode: ReplaceMode,
    pub allow_existing_current_run: bool,
}

/// A job leased to this worker by a reservation.
#[derive(Debug, Clone)]
pub struct ReservedJob {
    pub job_id: String,
    pub lease_token: String,
}

/// The jobs one reservation leased, and when the next scheduled job falls due.
#[derive(Debug, Clone)]
pub struct ReserveBatch {
    pub jobs: Vec<ReservedJob>,
    pub next_schedule_at: Option<Timestamp>,
}

/// Whether a handler failure may be retried under the retry policy.
#[derive(Debug, Clone, Copy, PartialEq, Eq, Structural)]
pub enum FailureAction {
    Retryable,
    Terminal,
}

/// A failure report for a leased job.
#[derive(Debug, Clone)]
pub struct FailureRequest {
    pub worker_id: String,
    pub job_id: String,
    pub lease_token: String,
    pub action: FailureAction,
    pub retry_policy: RetryPolicy,
    pub now: Timestamp,
}

} // verus!
