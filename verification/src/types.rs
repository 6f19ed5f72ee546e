//! Queue records, results, outcomes and operator requests.

use vstd::prelude::*;

use crate::text::str_equals;
use crate::time::{Timestamp, optional_on_whole_micro};

verus! {

/// Result of an enqueue mutation.
#[derive(Debug, Clone, PartialEq, Eq)]
pub struct EnqueueResult {
    pub job_id: String,
    pub state: JobState,
    pub status: EnqueueStatus,
}

/// Batch enqueue response.
#[derive(Debug, Clone, PartialEq, Eq)]
pub struct BatchEnqueueResult {
    pub items: Vec<EnqueueResult>,
}

/// Enqueue status classification.
#[derive(Debug, Clone, Copy, PartialEq, Eq, Structural)]
pub enum EnqueueStatus {
    Created,
    Unchanged,
    Updated,
}

/// Result of a reschedule mutation.
#[derive(Debug, Clone, PartialEq, Eq)]
pub struct RescheduleResult {
    pub job_id: String,
    pub state: JobState,
    pub schedule_at: Option<Timestamp>,
}

/// Retryable handler error.
#[derive(Debug, Clone, PartialEq, Eq)]
pub enum JobError {
    Retryable { message: String },
}

/// Worker handler result.
pub type HandlerResult = Result<JobOutcome, JobError>;

/// Worker outcome for a leased job.
#[derive(Debug, Clone, PartialEq, Eq)]
pub enum JobOutcome {
    Complete,
    Reschedule { schedule_at: Option<Timestamp> },
    Fail { message: String },
}

/// Queue state for a job.
#[derive(Debug, Clone, Copy, PartialEq, Eq, Structural)]
pub enum JobState {
    Ready,
    Scheduled,
    Leased,
    Failed,
}

/// Full job record for operator inspection.
#[derive(Debug, Clone, PartialEq, Eq)]
pub struct JobRecord {
    pub job_id: String,
    pub state: JobState,
    pub ready_at: Option<Timestamp>,
    pub schedule_at: Option<Timestamp>,
    pub failure_count: u32,
    pub leased_by: Option<LeaseHolder>,
    pub failed_at: Option<Timestamp>,
}

/// Leased worker metadata for operator queries.
#[derive(Debug, Clone, PartialEq, Eq)]
pub struct LeaseHolder {
    pub worker_id: String,
    pub lease_token: String,
    pub leased_until: Timestamp,
}

/// Snapshot queue counts.
#[derive(Debug, Clone, PartialEq, Eq, Structural)]
pub struct QueueCounts {
    pub ready_count: u64,
    pub scheduled_due_count: u64,
    pub scheduled_future_count: u64,
    pub leased_count: u64,
    pub failed_count: u64,
}

/// Failed-job listing query.
#[derive(Debug, Clone, PartialEq, Eq)]
pub struct FailedJobsQuery {
    pub cursor: Option<String>,
    pub limit: usize,
}

/// Failed-job page.
#[derive(Debug, Clone, PartialEq, Eq)]
pub struct FailedJobsPage {
    pub jobs: Vec<JobRecord>,
    pub next_cursor: Option<String>,
}

/// Worker inspection record.
#[derive(Debug, Clone, PartialEq, Eq)]
pub struct WorkerInfo {
    pub worker_id: String,
    pub concurrency: usize,
    pub leased_count: u64,
    pub last_heartbeat_at: Timestamp,
}

/// Operator selector for failed-job purge.
#[derive(Debug, Clone, PartialEq, Eq)]
pub enum FailedSelector {
    JobId(String),
    OlderThan(Timestamp),
    All,
}

/// Force-fail operator request.
#[derive(Debug, Clone, PartialEq, Eq)]
pub struct ForceFailRequest {
    pub job_id: String,
    pub message: String,
}

/// A job record as the contracts speak of it.
pub ghost struct JobRecordView {
    pub job_id: Seq<char>,
    pub state: JobState,
    pub ready_at: Option<int>,
    pub schedule_at: Option<int>,
    pub failure_count: u32,
    pub leased_by: Option<(Seq<char>, Seq<char>, int)>,
    pub failed_at: Option<int>,
}

/// An optional timestamp taken by its view.
pub open spec fn timestamp_option_view(t: Option<Timestamp>) -> Option<int> {
    match t {
        Some(t) => Some(t@),
        None => None,
    }
}

impl View for JobRecord {
    type V = JobRecordView;

    open spec fn view(&self) -> JobRecordView {
        JobRecordView {
            job_id: self.job_id@,
            state: self.state,
            ready_at: timestamp_option_view(self.ready_at),
            schedule_at: timestamp_option_view(self.schedule_at),
            failure_count: self.failure_count,
            leased_by: match self.leased_by {
                Some(holder) => Some((holder.worker_id@, holder.lease_token@, holder.leased_until@)),
                None => None,
            },
            failed_at: timestamp_option_view(self.failed_at),
        }
    }
}

impl JobRecord {
    /// Whether every instant of the record falls on a whole microsecond, as instants read
    /// back from the store do.
    pub open spec fn on_whole_micros(&self) -> bool {
        &&& optional_on_whole_micro(self.ready_at)
        &&& optional_on_whole_micro(self.schedule_at)
        &&& optional_on_whole_micro(self.failed_at)
        &&& match self.leased_by {
            Some(holder) => holder.leased_until.on_whole_micro(),
            None => true,
        }
    }
}

/// A worker record as the contracts speak of it.
pub ghost struct WorkerInfoView {
    pub worker_id: Seq<char>,
    pub concurrency: usize,
    pub leased_count: u64,
    pub last_heartbeat_at: int,
}

impl View for WorkerInfo {
    type V = WorkerInfoView;

    open spec fn view(&self) -> WorkerInfoView {
        WorkerInfoView {
            worker_id: self.worker_id@,
            concurrency: self.concurrency,
            leased_count: self.leased_count,
            last_heartbeat_at: self.last_heartbeat_at@,
        }
    }
}

/// The wire name of a job state.
pub open spec fn job_state_name(state: JobState) -> Seq<char> {
    match state {
        JobState::Ready => "ready"@,
        JobState::Scheduled => "scheduled"@,
        JobState::Leased => "leased"@,
        JobState::Failed => "failed"@,
    }
}

/// The job state a wire name denotes, if any.
pub open spec fn job_state_from_name(name: Seq<char>) -> Option<JobState> {
    if name == "ready"@ {
        Some(JobState::Ready)
    } else if name == "scheduled"@ {
        Some(JobState::Scheduled)
    } else if name == "leased"@ {
        Some(JobState::Leased)
    } else if name == "failed"@ {
        Some(JobState::Failed)
    } else {
        None
    }
}

/// The enqueue status a wire name denotes, if any.
pub open spec fn enqueue_status_from_name(name: Seq<char>) -> Option<EnqueueStatus> {
    if name == "created"@ {
        Some(EnqueueStatus::Created)
    } else if name == "unchanged"@ {
        Some(EnqueueStatus::Unchanged)
    } else if name == "updated"@ {
        Some(EnqueueStatus::Updated)
    } else {
        None
    }
}

/// The wire name of an enqueue status: the variant's name in snake case, as replies and
/// serialized results spell it.
pub open spec fn enqueue_status_name(status: EnqueueStatus) -> Seq<char> {
    match status {
        EnqueueStatus::Created => "created"@,
        EnqueueStatus::Unchanged => "unchanged"@,
        EnqueueStatus::Updated => "updated"@,
    }
}

/// Each enqueue status wire name reads back as the status of that name, so a reply never
/// reports one status as another.
pub proof fn lemma_enqueue_status_name_round_trip(status: EnqueueStatus)
    ensures
        enqueue_status_from_name(enqueue_status_name(status)) == Some(status),
{
    reveal_strlit("created");
    reveal_strlit("unchanged");
    reveal_strlit("updated");
    assert("created"@.len() == 7);
    assert("unchanged"@.len() == 9);
    assert("updated"@.len() == 7);
    assert("created"@[0] != "updated"@[0]);
}

/// Reading back the wire name of a job state gives that state.
pub proof fn lemma_job_state_name_round_trip(state: JobState)
    ensures
        job_state_from_name(job_state_name(state)) == Some(state),
{
    reveal_strlit("ready");
    reveal_strlit("scheduled");
    reveal_strlit("leased");
    reveal_strlit("failed");
    assert("ready"@.len() == 5);
    assert("scheduled"@.len() == 9);
    assert("leased"@.len() == 6);
    assert("failed"@.len() == 6);
    assert("leased"@[0] != "failed"@[0]);
}

impl JobState {
    /// The wire name of the state.
    pub fn as_str(self) -> (s: &'static str)
        ensures
            s@ == job_state_name(self),
    {
        match self {
            JobState::Ready => "ready",
            JobState::Scheduled => "scheduled",
            JobState::Leased => "leased",
            JobState::Failed => "failed",
        }
    }

    /// The state a wire name denotes, if any.
    pub fn from_str(value: &str) -> (r: Option<JobState>)
        ensures
            r == job_state_from_name(value@),
    {
        if str_equals(value, "ready") {
            Some(JobState::Ready)
        } else if str_equals(value, "scheduled") {
            Some(JobState::Scheduled)
        } else if str_equals(value, "leased") {
            Some(JobState::Leased)
        } else if str_equals(value, "failed") {
            Some(JobState::Failed)
        } else {
            None
        }
    }
}

impl EnqueueStatus {
    /// The status a wire name denotes, if any.
    pub fn from_str(value: &str) -> (r: Option<EnqueueStatus>)
        ensures
            r == enqueue_status_from_name(value@),
    {
        if str_equals(value, "created") {
            Some(EnqueueStatus::Created)
        } else if str_equals(value, "unchanged") {
            Some(EnqueueStatus::Unchanged)
        } else if str_equals(value, "updated") {
            Some(EnqueueStatus::Updated)
        } else {
            None
        }
    }
}

} // verus!
