//! Assembling operator records from what Redis holds: one job, a page of failed jobs,
//! the registered workers, and the workers that have gone stale.

use vstd::prelude::*;
use vstd::utf8::encode_utf8;

use crate::codec::{lease_meta_cuts_inside, lease_meta_cuts_inside_char, lease_meta_spec, parse_lease_meta, parse_worker_config_record, worker_config_record_fields};
use crate::error::{Error, ErrorView, Result};
use crate::protocol::{from_micros, micros, parse_cursor, parse_timestamp, timestamp_field_spec};
use crate::text::{parse_i64_spec, parse_unsigned_spec};
use crate::text::{decimal_of, decimal_string, push_str, signed_decimal_of, signed_decimal_string, string_from_chars};
use crate::time::{Timestamp, valid_timestamp_micros};
use crate::types::{FailedJobsQuery, FailedSelector, JobRecord, JobRecordView, JobState, LeaseHolder, WorkerInfo, WorkerInfoView};

verus! {

/// What one lookup of a job reads: its score in each of the four state sets, its failure
/// count and its lease metadata.
#[derive(Debug, Clone)]
pub struct JobLookup {
    pub ready_at: Option<String>,
    pub leased_until: Option<String>,
    pub failed_at: Option<String>,
    pub schedule_at: Option<String>,
    pub failure_count: Option<u32>,
    pub lease_meta: Option<String>,
}

/// A record with no optional parts, of the given state.
pub open spec fn bare_record(job_id: Seq<char>, state: JobState, failure_count: u32) -> JobRecordView {
    JobRecordView {
        job_id,
        state,
        ready_at: None,
        schedule_at: None,
        failure_count,
        leased_by: None,
        failed_at: None,
    }
}

/// The record a lookup describes. The state sets are read in the order ready, leased,
/// failed, scheduled; the first that holds the job decides its state.
pub open spec fn job_record_spec(job_id: Seq<char>, lookup: JobLookup) -> core::result::Result<Option<JobRecordView>, ErrorView> {
    let count = match lookup.failure_count { Some(c) => c, None => 0u32 };
    if let Some(ready_at) = lookup.ready_at {
        match timestamp_field_spec("ready_at"@, ready_at@) {
            Err(e) => Err(e),
            Ok(t) => Ok(Some(JobRecordView { ready_at: Some(t), ..bare_record(job_id, JobState::Ready, count) })),
        }
    } else if let Some(leased_until) = lookup.leased_until {
        match lookup.lease_meta {
            None => Err(ErrorView::InvalidData { field: "lease_meta"@ }),
            Some(meta) => match lease_meta_spec(encode_utf8(meta@)) {
                Err(e) => Err(e),
                Ok((worker_id, lease_token)) => match timestamp_field_spec("leased_until"@, leased_until@) {
                    Err(e) => Err(e),
                    Ok(t) => Ok(Some(JobRecordView {
                        leased_by: Some((worker_id, lease_token, t)),
                        ..bare_record(job_id, JobState::Leased, count)
                    })),
                },
            },
        }
    } else if let Some(failed_at) = lookup.failed_at {
        match timestamp_field_spec("failed_at"@, failed_at@) {
            Err(e) => Err(e),
            Ok(t) => Ok(Some(JobRecordView { failed_at: Some(t), ..bare_record(job_id, JobState::Failed, count) })),
        }
    } else if let Some(schedule_at) = lookup.schedule_at {
        match timestamp_field_spec("schedule_at"@, schedule_at@) {
            Err(e) => Err(e),
            Ok(t) => Ok(Some(JobRecordView { schedule_at: Some(t), ..bare_record(job_id, JobState::Scheduled, count) })),
        }
    } else {
        Ok(None)
    }
}

/// A job's record reports the state of the first set that holds the job, in the order
/// ready, leased, failed, scheduled, and carries the time of that set alone: the score
/// read from it. A job that no set holds has no record.
pub proof fn lemma_job_record_reports_its_own_set(job_id: Seq<char>, lookup: JobLookup)
    ensures
        match job_record_spec(job_id, lookup) {
            Ok(Some(rec)) => {
                &&& rec.job_id == job_id
                &&& rec.failure_count == match lookup.failure_count { Some(c) => c, None => 0u32 }
                &&& match rec.state {
                    JobState::Ready => {
                        &&& lookup.ready_at matches Some(score)
                        &&& rec.ready_at matches Some(t)
                        &&& parse_i64_spec(score@) == Some(t)
                        &&& rec.schedule_at is None && rec.failed_at is None && rec.leased_by is None
                    },
                    JobState::Leased => {
                        &&& lookup.ready_at is None
                        &&& lookup.leased_until matches Some(score)
                        &&& rec.leased_by matches Some(holder)
                        &&& parse_i64_spec(score@) == Some(holder.2)
                        &&& rec.ready_at is None && rec.schedule_at is None && rec.failed_at is None
                    },
                    JobState::Failed => {
                        &&& lookup.ready_at is None && lookup.leased_until is None
                        &&& lookup.failed_at matches Some(score)
                        &&& rec.failed_at matches Some(t)
                        &&& parse_i64_spec(score@) == Some(t)
                        &&& rec.ready_at is None && rec.schedule_at is None && rec.leased_by is None
                    },
                    JobState::Scheduled => {
                        &&& lookup.ready_at is None && lookup.leased_until is None && lookup.failed_at is None
                        &&& lookup.schedule_at matches Some(score)
                        &&& rec.schedule_at matches Some(t)
                        &&& parse_i64_spec(score@) == Some(t)
                        &&& rec.ready_at is None && rec.failed_at is None && rec.leased_by is None
                    },
                }
            },
            Ok(None) => lookup.ready_at is None && lookup.leased_until is None && lookup.failed_at is None
                && lookup.schedule_at is None,
            Err(_) => true,
        },
{
}

/// Whether reading the lookup would have to cut lease metadata inside a character.
pub open spec fn job_lookup_cuts_inside_char(lookup: JobLookup) -> bool {
    lookup.ready_at is None && lookup.leased_until is Some && match lookup.lease_meta {
        Some(meta) => lease_meta_cuts_inside_char(encode_utf8(meta@)),
        None => false,
    }
}

impl JobLookup {
    /// Whether reading the lookup would have to cut its lease metadata inside a character.
    pub fn cuts_inside_char(&self) -> (b: bool)
        ensures
            b == job_lookup_cuts_inside_char(*self),
    {
        if self.ready_at.is_some() || self.leased_until.is_none() {
            return false;
        }
        match &self.lease_meta {
            Some(meta) => lease_meta_cuts_inside(meta.as_str()),
            None => false,
        }
    }
}

/// Builds the record of a job from one lookup of it.
pub fn job_record_from_lookup(job_id: &str, lookup: JobLookup) -> (r: Result<Option<JobRecord>>)
    requires
        !job_lookup_cuts_inside_char(lookup),
    ensures
        match job_record_spec(job_id@, lookup) {
            Ok(Some(rec)) => r matches Ok(Some(x)) && x@ == rec,
            Ok(None) => r matches Ok(None),
            Err(ev) => r matches Err(e) && e@ == ev,
        },
        r matches Ok(Some(x)) ==> x.on_whole_micros(),
{
    let failure_count = match lookup.failure_count { Some(c) => c, None => 0 };
    if let Some(ready_at) = &lookup.ready_at {
        let t = parse_timestamp("ready_at", ready_at.as_str())?;
        return Ok(Some(JobRecord {
            job_id: job_id.to_owned(),
            state: JobState::Ready,
            ready_at: Some(t),
            schedule_at: None,
            failure_count,
            leased_by: None,
            failed_at: None,
        }));
    }
    if let Some(leased_until) = &lookup.leased_until {
        let meta = match &lookup.lease_meta {
            Some(meta) => meta,
            None => return Err(Error::InvalidData { field: "lease_meta" }),
        };
        let (worker_id, lease_token) = parse_lease_meta(meta.as_str())?;
        let t = parse_timestamp("leased_until", leased_until.as_str())?;
        return Ok(Some(JobRecord {
            job_id: job_id.to_owned(),
            state: JobState::Leased,
            ready_at: None,
            schedule_at: None,
            failure_count,
            leased_by: Some(LeaseHolder { worker_id, lease_token, leased_until: t }),
            failed_at: None,
        }));
    }
    if let Some(failed_at) = &lookup.failed_at {
        let t = parse_timestamp("failed_at", failed_at.as_str())?;
        return Ok(Some(JobRecord {
            job_id: job_id.to_owned(),
            state: JobState::Failed,
            ready_at: None,
            schedule_at: None,
            failure_count,
            leased_by: None,
            failed_at: Some(t),
        }));
    }
    if let Some(schedule_at) = &lookup.schedule_at {
        let t = parse_timestamp("schedule_at", schedule_at.as_str())?;
        return Ok(Some(JobRecord {
            job_id: job_id.to_owned(),
            state: JobState::Scheduled,
            ready_at: None,
            schedule_at: Some(t),
            failure_count,
            leased_by: None,
            failed_at: None,
        }));
    }
    Ok(None)
}

/// The offset a failed-job query starts at: its cursor, or the first entry.
pub fn failed_page_offset(query: &FailedJobsQuery) -> (r: Result<usize>)
    ensures
        match query.cursor {
            None => r == Ok::<usize, Error>(0),
            Some(cursor) => match parse_unsigned_spec(cursor@, usize::MAX as nat) {
                Some(v) => r == Ok::<usize, Error>(v as usize),
                None => r matches Err(e) && e@ == (ErrorView::InvalidCursor { cursor: cursor@ }),
            },
        },
{
    match &query.cursor {
        Some(cursor) => parse_cursor(cursor.as_str()),
        None => Ok(0),
    }
}

/// The entries a failed-job page reads, as the range of ranks `start..=stop`: one entry
/// more than the page holds, to learn whether another page follows. No range when the
/// page is empty.
pub fn failed_page_window(offset: usize, limit: usize) -> (r: Option<(usize, usize)>)
    requires
        offset + limit <= usize::MAX,
    ensures
        r == if limit == 0 { None } else { Some((offset, (offset + limit) as usize)) },
{
    if limit == 0 {
        None
    } else {
        Some((offset, offset + limit))
    }
}

/// Failed-job rows taken by job identifier and failure time.
pub open spec fn failed_rows_view(rows: Seq<(String, i64)>) -> Seq<(Seq<char>, i64)> {
    rows.map_values(|row: (String, i64)| (row.0@, row.1))
}

/// Cuts the rows read for a failed-job page down to the page, and gives the cursor of the
/// next page when more rows were read than the page holds.
pub fn truncate_failed_rows(rows: Vec<(String, i64)>, offset: usize, limit: usize) -> (r: (Vec<(String, i64)>, Option<String>))
    requires
        offset + limit <= usize::MAX,
    ensures
        rows@.len() > limit ==> failed_rows_view(r.0@) == failed_rows_view(rows@).take(limit as int),
        rows@.len() > limit ==> (r.1 matches Some(c) && c@ == decimal_of((offset + limit) as nat)),
        rows@.len() <= limit ==> failed_rows_view(r.0@) == failed_rows_view(rows@) && r.1 is None,
{
    let mut rows = rows;
    if rows.len() > limit {
        let ghost before = rows@;
        rows.truncate(limit);
        proof {
            assert(failed_rows_view(rows@) =~= failed_rows_view(before).take(limit as int));
        }
        let cursor = decimal_string((offset + limit) as u128);
        (rows, Some(cursor))
    } else {
        (rows, None)
    }
}

/// The cursor a failed-job page hands out is read back as the offset right after the page's
/// last row, so the next query continues where the page ended.
pub proof fn lemma_next_cursor_continues(offset: usize, limit: usize)
    requires
        offset + limit <= usize::MAX,
    ensures
        parse_unsigned_spec(decimal_of((offset + limit) as nat), usize::MAX as nat) == Some((offset + limit) as nat),
{
    crate::text::lemma_parse_decimal_of((offset + limit) as nat, usize::MAX as nat);
}

/// The failed-job record of one row: failed at the row's time, or at the epoch where the
/// stored time names no calendar instant.
pub open spec fn failed_row_record(row: (Seq<char>, i64), failure_count: Option<u32>) -> JobRecordView {
    JobRecordView {
        job_id: row.0,
        state: JobState::Failed,
        ready_at: None,
        schedule_at: None,
        failure_count: match failure_count { Some(c) => c, None => 0u32 },
        leased_by: None,
        failed_at: Some(if valid_timestamp_micros(row.1 as int) { row.1 as int } else { 0 }),
    }
}

/// The records of a failed-job page, pairing rows with failure counts.
pub open spec fn failed_page_records(rows: Seq<(Seq<char>, i64)>, counts: Seq<Option<u32>>) -> Seq<JobRecordView> {
    let n = if rows.len() <= counts.len() { rows.len() } else { counts.len() };
    Seq::new(n, |i: int| failed_row_record(rows[i], counts[i]))
}

/// Pairs the rows of a failed-job page with the failure counts read for them.
pub fn failed_page_jobs(rows: Vec<(String, i64)>, failure_counts: Vec<Option<u32>>) -> (jobs: Vec<JobRecord>)
    ensures
        jobs@.map_values(|j: JobRecord| j@) == failed_page_records(failed_rows_view(rows@), failure_counts@),
        forall|i: int| 0 <= i < jobs@.len() ==> (#[trigger] jobs@[i]).on_whole_micros(),
{
    let n = if rows.len() <= failure_counts.len() { rows.len() } else { failure_counts.len() };
    let mut jobs: Vec<JobRecord> = Vec::new();
    let mut i: usize = 0;
    while i < n
        invariant
            i <= n,
            n <= rows.len(),
            n <= failure_counts.len(),
            n == if rows.len() <= failure_counts.len() { rows.len() } else { failure_counts.len() },
            jobs@.map_values(|j: JobRecord| j@) == failed_page_records(failed_rows_view(rows@), failure_counts@).take(i as int),
            forall|k: int| 0 <= k < jobs@.len() ==> (#[trigger] jobs@[k]).on_whole_micros(),
        decreases n - i,
    {
        let (job_id, failed_us) = &rows[i];
        let failed_at = match from_micros(*failed_us) {
            Ok(t) => t,
            Err(_) => Timestamp::epoch(),
        };
        let failure_count = match failure_counts[i] { Some(c) => c, None => 0 };
        let ghost before = jobs@;
        jobs.push(JobRecord {
            job_id: job_id.clone(),
            state: JobState::Failed,
            ready_at: None,
            schedule_at: None,
            failure_count,
            leased_by: None,
            failed_at: Some(failed_at),
        });
        proof {
            let all = failed_page_records(failed_rows_view(rows@), failure_counts@);
            assert(jobs@.map_values(|j: JobRecord| j@) =~= before.map_values(|j: JobRecord| j@).push(jobs@[i as int]@));
            assert(all.take(i + 1) =~= all.take(i as int).push(all[i as int]));
            assert(jobs@[i as int]@ == all[i as int]);
        }
        i = i + 1;
    }
    proof {
        let all = failed_page_records(failed_rows_view(rows@), failure_counts@);
        assert(all.take(n as int) =~= all);
    }
    jobs
}

/// Worker rows taken by worker identifier and last-seen time.
pub open spec fn worker_rows_view(rows: Seq<(String, i64)>) -> Seq<(Seq<char>, i64)> {
    rows.map_values(|row: (String, i64)| (row.0@, row.1))
}

/// Optional strings taken by their characters.
pub open spec fn optional_strings_view(items: Seq<Option<String>>) -> Seq<Option<Seq<char>>> {
    items.map_values(|item: Option<String>| match item { Some(s) => Some(s@), None => None })
}

/// The smallest of three lengths.
pub open spec fn min3(a: nat, b: nat, c: nat) -> nat {
    if a <= b && a <= c { a } else if b <= c { b } else { c }
}

/// The worker records from entry `i` on: entries without a configuration record are
/// skipped, a malformed record or last-seen time stops the listing with its error.
pub open spec fn worker_infos_from(
    rows: Seq<(Seq<char>, i64)>,
    configs: Seq<Option<Seq<char>>>,
    leases: Seq<Option<u64>>,
    i: int,
) -> core::result::Result<Seq<WorkerInfoView>, ErrorView>
    decreases min3(rows.len(), configs.len(), leases.len()) - i,
{
    if i < 0 || i >= min3(rows.len(), configs.len(), leases.len()) {
        Ok(Seq::empty())
    } else {
        match configs[i] {
            None => worker_infos_from(rows, configs, leases, i + 1),
            Some(record) => match worker_config_record_fields(record) {
                Err(e) => Err(e),
                Ok((concurrency, _)) => if !valid_timestamp_micros(rows[i].1 as int) {
                    Err(ErrorView::InvalidTimestamp { micros: rows[i].1 })
                } else {
                    match worker_infos_from(rows, configs, leases, i + 1) {
                        Err(e) => Err(e),
                        Ok(rest) => Ok(seq![WorkerInfoView {
                            worker_id: rows[i].0,
                            concurrency: concurrency as usize,
                            leased_count: match leases[i] { Some(n) => n, None => 0u64 },
                            last_heartbeat_at: rows[i].1 as int,
                        }] + rest),
                    }
                },
            },
        }
    }
}

/// Builds the worker records from the registered workers, their configuration records
/// and their lease counts.
pub fn assemble_worker_infos(
    workers: Vec<(String, i64)>,
    configs: Vec<Option<String>>,
    lease_counts: Vec<Option<u64>>,
) -> (r: Result<Vec<WorkerInfo>>)
    ensures
        match worker_infos_from(worker_rows_view(workers@), optional_strings_view(configs@), lease_counts@, 0) {
            Ok(infos) => r matches Ok(v) && v@.map_values(|w: WorkerInfo| w@) == infos,
            Err(ev) => r matches Err(e) && e@ == ev,
        },
        r matches Ok(v) ==> forall|i: int| 0 <= i < v@.len() ==> (#[trigger] v@[i]).last_heartbeat_at.on_whole_micro(),
{
    let ghost rows = worker_rows_view(workers@);
    let ghost cfgs = optional_strings_view(configs@);
    let n = if workers.len() <= configs.len() && workers.len() <= lease_counts.len() {
        workers.len()
    } else if configs.len() <= lease_counts.len() {
        configs.len()
    } else {
        lease_counts.len()
    };
    let mut result: Vec<WorkerInfo> = Vec::new();
    let mut i: usize = 0;
    while i < n
        invariant
            i <= n,
            n as nat == min3(workers@.len(), configs@.len(), lease_counts@.len()),
            rows == worker_rows_view(workers@),
            cfgs == optional_strings_view(configs@),
            worker_infos_from(rows, cfgs, lease_counts@, 0) == match worker_infos_from(rows, cfgs, lease_counts@, i as int) {
                Ok(rest) => Ok(result@.map_values(|w: WorkerInfo| w@) + rest),
                Err(e) => Err(e),
            },
            forall|k: int| 0 <= k < result@.len() ==> (#[trigger] result@[k]).last_heartbeat_at.on_whole_micro(),
        decreases n - i,
    {
        let ghost before = result@;
        match &configs[i] {
            None => {},
            Some(record) => {
                let parsed = parse_worker_config_record(record.as_str())?;
                let (worker_id, last_seen) = &workers[i];
                let last_heartbeat_at = from_micros(*last_seen)?;
                let leased_count = match lease_counts[i] { Some(c) => c, None => 0 };
                result.push(WorkerInfo {
                    worker_id: worker_id.clone(),
                    concurrency: parsed.concurrency,
                    leased_count,
                    last_heartbeat_at,
                });
                proof {
                    assert(result@.map_values(|w: WorkerInfo| w@) =~= before.map_values(|w: WorkerInfo| w@).push(result@[before.len() as int]@));
                    match worker_infos_from(rows, cfgs, lease_counts@, i + 1) {
                        Ok(rest) => {
                            let head = before.map_values(|w: WorkerInfo| w@);
                            let item = result@[before.len() as int]@;
                            assert(head + (seq![item] + rest) =~= head.push(item) + rest);
                        },
                        Err(_) => {},
                    }
                }
            },
        }
        i = i + 1;
    }
    proof {
        let rest_empty = worker_infos_from(rows, cfgs, lease_counts@, n as int);
        assert(rest_empty == Ok::<Seq<WorkerInfoView>, ErrorView>(Seq::empty()));
        assert(result@.map_values(|w: WorkerInfo| w@) + Seq::<WorkerInfoView>::empty() =~= result@.map_values(|w: WorkerInfo| w@));
    }
    Ok(result)
}

/// Clamps a value to the `i64` range, as saturating `i64` arithmetic does.
pub open spec fn saturate_i64(v: int) -> int {
    if v > i64::MAX { i64::MAX as int } else if v < i64::MIN { i64::MIN as int } else { v }
}

/// A `u64` read as an `i64` with `as`: values above `i64::MAX` wrap around.
pub open spec fn u64_as_i64(v: nat) -> int {
    if v <= i64::MAX { v as int } else { v - 0x1_0000_0000_0000_0000 }
}

/// One day in microseconds: the shortest time after which a worker counts as stale.
pub open spec fn min_stale_after_micros() -> int { 86_400_000_000 }

/// Whether a worker last seen at `last_seen` counts as stale at `now`: a worker without a
/// configuration record always does; otherwise after ten lease durations, and at least a
/// day, without a heartbeat.
pub open spec fn worker_stale_spec(now: int, last_seen: i64, config: Option<Seq<char>>) -> core::result::Result<bool, ErrorView> {
    match config {
        None => Ok(true),
        Some(record) => match worker_config_record_fields(record) {
            Err(e) => Err(e),
            Ok((_, lease_ms)) => {
                let window = saturate_i64(saturate_i64(u64_as_i64(lease_ms) * 10) * 1_000);
                let stale_after = if window >= min_stale_after_micros() { window } else { min_stale_after_micros() };
                Ok(saturate_i64(now - last_seen) > stale_after)
            },
        },
    }
}

/// The stale workers from entry `i` on; a malformed configuration record stops with its error.
pub open spec fn stale_workers_from(
    now: int,
    rows: Seq<(Seq<char>, i64)>,
    configs: Seq<Option<Seq<char>>>,
    i: int,
) -> core::result::Result<Seq<Seq<char>>, ErrorView>
    decreases (if rows.len() <= configs.len() { rows.len() } else { configs.len() }) - i,
{
    let n = if rows.len() <= configs.len() { rows.len() } else { configs.len() };
    if i < 0 || i >= n {
        Ok(Seq::empty())
    } else {
        match worker_stale_spec(now, rows[i].1, configs[i]) {
            Err(e) => Err(e),
            Ok(stale) => match stale_workers_from(now, rows, configs, i + 1) {
                Err(e) => Err(e),
                Ok(rest) => Ok(if stale { seq![rows[i].0] + rest } else { rest }),
            },
        }
    }
}

fn saturating_i64(v: i128) -> (r: i64)
    ensures
        r as int == saturate_i64(v as int),
{
    if v > 0x7fff_ffff_ffff_ffff {
        0x7fff_ffff_ffff_ffff
    } else if v < -0x8000_0000_0000_0000 {
        -0x8000_0000_0000_0000
    } else {
        v as i64
    }
}

/// Whether one registered worker is stale at `now`.
pub fn worker_is_stale(now: Timestamp, last_seen: i64, config: &Option<String>) -> (r: Result<bool>)
    ensures
        result_view_bool(r) == worker_stale_spec(now@, last_seen, match config { Some(s) => Some(s@), None => None }),
{
    match config {
        None => Ok(true),
        Some(record) => {
            let parsed = parse_worker_config_record(record.as_str())?;
            let lease_ms: i128 = if parsed.lease_duration_ms <= 0x7fff_ffff_ffff_ffff {
                parsed.lease_duration_ms as i128
            } else {
                (parsed.lease_duration_ms as i128) - 0x1_0000_0000_0000_0000
            };
            let window = saturating_i64((saturating_i64(lease_ms * 10) as i128) * 1_000);
            let stale_after: i64 = if window >= 86_400_000_000 { window } else { 86_400_000_000 };
            let now_us = micros(now);
            let age = saturating_i64((now_us as i128) - (last_seen as i128));
            Ok(age > stale_after)
        },
    }
}

/// A boolean result taken with its error by view.
pub open spec fn result_view_bool(r: Result<bool>) -> core::result::Result<bool, ErrorView> {
    match r {
        Ok(b) => Ok(b),
        Err(e) => Err(e@),
    }
}

/// The registered workers that have gone stale at `now`.
pub fn stale_workers(now: Timestamp, workers: &Vec<(String, i64)>, configs: &Vec<Option<String>>) -> (r: Result<Vec<String>>)
    ensures
        match stale_workers_from(now@, worker_rows_view(workers@), optional_strings_view(configs@), 0) {
            Ok(ids) => r matches Ok(v) && v@.map_values(|s: String| s@) == ids,
            Err(ev) => r matches Err(e) && e@ == ev,
        },
{
    let ghost rows = worker_rows_view(workers@);
    let ghost cfgs = optional_strings_view(configs@);
    let n = if workers.len() <= configs.len() { workers.len() } else { configs.len() };
    let mut stale: Vec<String> = Vec::new();
    let mut i: usize = 0;
    while i < n
        invariant
            i <= n,
            n == if workers@.len() <= configs@.len() { workers@.len() } else { configs@.len() },
            rows == worker_rows_view(workers@),
            cfgs == optional_strings_view(configs@),
            stale_workers_from(now@, rows, cfgs, 0) == match stale_workers_from(now@, rows, cfgs, i as int) {
                Ok(rest) => Ok(stale@.map_values(|s: String| s@) + rest),
                Err(e) => Err(e),
            },
        decreases n - i,
    {
        let ghost before = stale@;
        let (worker_id, last_seen) = &workers[i];
        proof {
            assert(cfgs[i as int] == match configs@[i as int] { Some(s) => Some(s@), None => None::<Seq<char>> });
        }
        let is_stale = worker_is_stale(now, *last_seen, &configs[i])?;
        if is_stale {
            stale.push(worker_id.clone());
            proof {
                let head = before.map_values(|s: String| s@);
                assert(stale@.map_values(|s: String| s@) =~= head.push(worker_id@));
                match stale_workers_from(now@, rows, cfgs, i + 1) {
                    Ok(rest) => {
                        assert(head + (seq![worker_id@] + rest) =~= head.push(worker_id@) + rest);
                    },
                    Err(_) => {},
                }
            }
        }
        i = i + 1;
    }
    proof {
        assert(stale@.map_values(|s: String| s@) + Seq::<Seq<char>>::empty() =~= stale@.map_values(|s: String| s@));
    }
    Ok(stale)
}

/// How a purge finds the failed jobs its selector names.
#[derive(Debug, Clone)]
pub enum PurgeLookup {
    /// The one job, if it is among the failed jobs.
    Member { job_id: String },
    /// The failed jobs whose failure time lies strictly before `max`, an exclusive score
    /// bound: `(` and the instant in whole microseconds.
    Before { max: String },
    /// Every failed job.
    All,
}

/// The lookup of a purge: the named job, the failures strictly older than the instant,
/// or all failures.
pub fn purge_lookup(selector: &FailedSelector) -> (l: PurgeLookup)
    ensures
        match selector {
            FailedSelector::JobId(job_id) => l matches PurgeLookup::Member { job_id: j } && j@ == job_id@,
            FailedSelector::OlderThan(t) => l matches PurgeLookup::Before { max } && max@ == seq!['('] + signed_decimal_of(t@),
            FailedSelector::All => l is All,
        },
{
    match selector {
        FailedSelector::JobId(job_id) => PurgeLookup::Member { job_id: job_id.clone() },
        FailedSelector::OlderThan(t) => {
            let mut out: Vec<char> = Vec::new();
            push_str(&mut out, "(");
            let number = signed_decimal_string(micros(*t));
            push_str(&mut out, number.as_str());
            proof {
                reveal_strlit("(");
                assert(out@ =~= seq!['('] + signed_decimal_of(t@));
            }
            PurgeLookup::Before { max: string_from_chars(&out) }
        },
        FailedSelector::All => PurgeLookup::All,
    }
}

} // verus!
