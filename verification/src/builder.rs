//! The fluent job API: what an immediate or scheduled enqueue sends.

use vstd::prelude::*;

use crate::store::{EnqueueRequest, ReplaceMode};
use crate::time::Timestamp;

verus! {

/// Batch enqueue item built from the fluent job API.
#[derive(Debug, Clone)]
pub struct BatchEnqueueItem {
    pub request: EnqueueRequest,
}

/// Immediate job builder.
#[derive(Debug, Clone)]
pub struct JobBuilder {
    job_id: String,
}

/// Scheduled job builder with replacement controls.
#[derive(Debug, Clone)]
pub struct ScheduledJobBuilder {
    job_id: String,
    schedule_at: Timestamp,
    replace_mode: ReplaceMode,
}

impl JobBuilder {
    /// The job this builder enqueues.
    pub closed spec fn job_id_view(&self) -> Seq<char> {
        self.job_id@
    }

    /// A builder for the job `job_id`.
    pub fn new(job_id: String) -> (b: JobBuilder)
        ensures
            b.job_id_view() == job_id@,
    {
        JobBuilder { job_id }
    }

    /// Moves the builder into the scheduled path; a later placement replaces an earlier one.
    pub fn schedule_at(self, schedule_at: Timestamp) -> (b: ScheduledJobBuilder)
        ensures
            b.job_id_view() == self.job_id_view(),
            b.schedule_at_view() == schedule_at,
            b.replace_mode_view() == ReplaceMode::Always,
    {
        ScheduledJobBuilder { job_id: self.job_id, schedule_at, replace_mode: ReplaceMode::Always }
    }

    /// The request an immediate enqueue sends: no schedule, always replace, and a job that
    /// is already running may be enqueued again.
    pub fn request(self) -> (r: EnqueueRequest)
        ensures
            r.job_id@ == self.job_id_view(),
            r.schedule_at is None,
            r.replace_mode == ReplaceMode::Always,
            r.allow_existing_current_run,
    {
        EnqueueRequest {
            job_id: self.job_id,
            schedule_at: None,
            replace_mode: ReplaceMode::Always,
            allow_existing_current_run: true,
        }
    }

    /// Converts the builder into a batch item.
    pub fn into_batch_item(self) -> (item: BatchEnqueueItem)
        ensures
            item.request.job_id@ == self.job_id_view(),
            item.request.schedule_at is None,
            item.request.replace_mode == ReplaceMode::Always,
            item.request.allow_existing_current_run,
    {
        BatchEnqueueItem { request: self.request() }
    }
}

impl ScheduledJobBuilder {
    /// The job this builder enqueues.
    pub closed spec fn job_id_view(&self) -> Seq<char> {
        self.job_id@
    }

    /// When the job becomes due.
    pub closed spec fn schedule_at_view(&self) -> Timestamp {
        self.schedule_at
    }

    /// How an existing waiting placement is treated.
    pub closed spec fn replace_mode_view(&self) -> ReplaceMode {
        self.replace_mode
    }

    /// Only replace an existing waiting placement when the new activation time is earlier.
    pub fn replace_if_earlier(self) -> (b: ScheduledJobBuilder)
        ensures
            b.job_id_view() == self.job_id_view(),
            b.schedule_at_view() == self.schedule_at_view(),
            b.replace_mode_view() == ReplaceMode::IfEarlier,
    {
        ScheduledJobBuilder { replace_mode: ReplaceMode::IfEarlier, ..self }
    }

    /// Only replace an existing waiting placement when the new activation time is later.
    pub fn replace_if_later(self) -> (b: ScheduledJobBuilder)
        ensures
            b.job_id_view() == self.job_id_view(),
            b.schedule_at_view() == self.schedule_at_view(),
            b.replace_mode_view() == ReplaceMode::IfLater,
    {
        ScheduledJobBuilder { replace_mode: ReplaceMode::IfLater, ..self }
    }

    /// The request a scheduled enqueue sends; a running job is not enqueued again.
    pub fn request(self) -> (r: EnqueueRequest)
        ensures
            r.job_id@ == self.job_id_view(),
            r.schedule_at == Some(self.schedule_at_view()),
            r.replace_mode == self.replace_mode_view(),
            !r.allow_existing_current_run,
    {
        EnqueueRequest {
            job_id: self.job_id,
            schedule_at: Some(self.schedule_at),
            replace_mode: self.replace_mode,
            allow_existing_current_run: false,
        }
    }

    /// Converts the builder into a batch item.
    pub fn into_batch_item(self) -> (item: BatchEnqueueItem)
        ensures
            item.request.job_id@ == self.job_id_view(),
            item.request.schedule_at == Some(self.schedule_at_view()),
            item.request.replace_mode == self.replace_mode_view(),
            !item.request.allow_existing_current_run,
    {
        BatchEnqueueItem { request: self.request() }
    }
}

} // verus!
