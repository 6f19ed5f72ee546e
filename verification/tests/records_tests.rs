use redloop::error::Error;
use redloop::records::{
    JobLookup, PurgeLookup, assemble_worker_infos, failed_page_jobs, failed_page_offset, failed_page_window, job_record_from_lookup,
    purge_lookup, stale_workers, truncate_failed_rows, worker_is_stale,
};
use redloop::time::Timestamp;
use redloop::types::{FailedJobsQuery, FailedSelector, JobState};

fn lookup() -> JobLookup {
    JobLookup {
        ready_at: None,
        leased_until: None,
        failed_at: None,
        schedule_at: None,
        failure_count: None,
        lease_meta: None,
    }
}

#[test]
fn missing_job_has_no_record() {
    assert!(job_record_from_lookup("job-1", lookup()).unwrap().is_none());
}

#[test]
fn ready_set_decides_before_the_others() {
    let record = job_record_from_lookup(
        "job-1",
        JobLookup {
            ready_at: Some("1000".into()),
            schedule_at: Some("2000".into()),
            failure_count: Some(2),
            ..lookup()
        },
    )
    .unwrap()
    .unwrap();
    assert_eq!(record.state, JobState::Ready);
    assert_eq!(record.ready_at.unwrap().timestamp_micros(), 1000);
    assert!(record.schedule_at.is_none());
    assert_eq!(record.failure_count, 2);
}

#[test]
fn leased_job_reports_its_holder() {
    let record = job_record_from_lookup(
        "job-1",
        JobLookup {
            leased_until: Some("5000".into()),
            lease_meta: Some("8:worker-alease-1".into()),
            ..lookup()
        },
    )
    .unwrap()
    .unwrap();
    assert_eq!(record.state, JobState::Leased);
    let holder = record.leased_by.unwrap();
    assert_eq!(holder.worker_id, "worker-a");
    assert_eq!(holder.lease_token, "lease-1");
    assert_eq!(holder.leased_until.timestamp_micros(), 5000);
    assert_eq!(record.failure_count, 0);
}

#[test]
fn leased_job_without_metadata_is_invalid_data() {
    let r = job_record_from_lookup("job-1", JobLookup { leased_until: Some("5000".into()), ..lookup() });
    assert!(matches!(r, Err(Error::InvalidData { field: "lease_meta" })));
}

#[test]
fn failed_and_scheduled_records() {
    let failed = job_record_from_lookup("j", JobLookup { failed_at: Some("7".into()), ..lookup() })
        .unwrap()
        .unwrap();
    assert_eq!(failed.state, JobState::Failed);
    assert_eq!(failed.failed_at.unwrap().timestamp_micros(), 7);
    let scheduled = job_record_from_lookup("j", JobLookup { schedule_at: Some("9".into()), ..lookup() })
        .unwrap()
        .unwrap();
    assert_eq!(scheduled.state, JobState::Scheduled);
    assert!(matches!(
        job_record_from_lookup("j", JobLookup { schedule_at: Some("x".into()), ..lookup() }),
        Err(Error::InvalidData { field: "schedule_at" })
    ));
}

#[test]
fn failed_pages_read_one_extra_row_for_the_cursor() {
    assert_eq!(failed_page_offset(&FailedJobsQuery { cursor: None, limit: 10 }).unwrap(), 0);
    assert_eq!(failed_page_offset(&FailedJobsQuery { cursor: Some("20".into()), limit: 10 }).unwrap(), 20);
    assert!(matches!(
        failed_page_offset(&FailedJobsQuery { cursor: Some("next".into()), limit: 10 }),
        Err(Error::InvalidCursor { .. })
    ));
    assert_eq!(failed_page_window(20, 10), Some((20, 30)));
    assert_eq!(failed_page_window(20, 0), None);

    let rows = vec![("a".to_string(), 1i64), ("b".to_string(), 2), ("c".to_string(), 3)];
    let (page, next) = truncate_failed_rows(rows.clone(), 4, 2);
    assert_eq!(page, vec![("a".to_string(), 1i64), ("b".to_string(), 2)]);
    assert_eq!(next.as_deref(), Some("6"));
    let (page, next) = truncate_failed_rows(rows, 4, 3);
    assert_eq!(page.len(), 3);
    assert!(next.is_none());
}

#[test]
fn failed_page_jobs_pair_rows_with_counts() {
    let jobs = failed_page_jobs(
        vec![("a".to_string(), 10i64), ("b".to_string(), i64::MAX)],
        vec![Some(3), None],
    );
    assert_eq!(jobs.len(), 2);
    assert_eq!(jobs[0].job_id, "a");
    assert_eq!(jobs[0].state, JobState::Failed);
    assert_eq!(jobs[0].failure_count, 3);
    assert_eq!(jobs[0].failed_at.unwrap().timestamp_micros(), 10);
    assert_eq!(jobs[1].failure_count, 0);
    // A stored time outside the calendar reads as the epoch.
    assert_eq!(jobs[1].failed_at.unwrap().timestamp_micros(), 0);
}

#[test]
fn worker_infos_skip_unconfigured_workers() {
    let infos = assemble_worker_infos(
        vec![("w1".to_string(), 100i64), ("w2".to_string(), 200), ("w3".to_string(), 300)],
        vec![Some("4:30000:10000:1000:10:100:never".into()), None, Some("2:5000".into())],
        vec![Some(3), Some(1), None],
    )
    .unwrap();
    assert_eq!(infos.len(), 2);
    assert_eq!(infos[0].worker_id, "w1");
    assert_eq!(infos[0].concurrency, 4);
    assert_eq!(infos[0].leased_count, 3);
    assert_eq!(infos[0].last_heartbeat_at.timestamp_micros(), 100);
    assert_eq!(infos[1].worker_id, "w3");
    assert_eq!(infos[1].leased_count, 0);

    assert!(matches!(
        assemble_worker_infos(vec![("w1".to_string(), 1)], vec![Some("bad".into())], vec![None]),
        Err(Error::InvalidData { field: "workers:config.concurrency" })
    ));
}

#[test]
fn workers_go_stale_after_ten_leases_and_at_least_a_day() {
    let day: i64 = 86_400_000_000;
    let now = Timestamp::checked_from_micros(10 * day).unwrap();
    let short = Some("1:30000".to_string());
    // Ten leases of 30 s are less than a day, so the day applies.
    assert!(!worker_is_stale(now, 9 * day, &short).unwrap());
    assert!(!worker_is_stale(now, 9 * day + 0, &short).unwrap());
    assert!(worker_is_stale(now, 9 * day - 1, &short).unwrap());
    // Ten leases of three hours are more than a day.
    let long = Some("1:10800000".to_string());
    assert!(!worker_is_stale(now, 9 * day - 1, &long).unwrap());
    assert!(worker_is_stale(now, 10 * day - 108_000_000_000 - 1, &long).unwrap());
    // No configuration record: always stale.
    assert!(worker_is_stale(now, 10 * day, &None).unwrap());

    let ids = stale_workers(
        now,
        &vec![("old".to_string(), 0i64), ("fresh".to_string(), 10 * day), ("bare".to_string(), 10 * day)],
        &vec![short.clone(), short.clone(), None],
    )
    .unwrap();
    assert_eq!(ids, vec!["old".to_string(), "bare".to_string()]);
}

#[test]
fn lookups_whose_metadata_would_be_cut_inside_a_character_are_detected() {
    let cut = JobLookup { leased_until: Some("5".into()), lease_meta: Some("1:ék".into()), ..lookup() };
    assert!(cut.cuts_inside_char());
    let ready = JobLookup { ready_at: Some("1".into()), ..cut.clone() };
    assert!(!ready.cuts_inside_char());
    let whole = JobLookup { leased_until: Some("5".into()), lease_meta: Some("2:ék".into()), ..lookup() };
    assert!(!whole.cuts_inside_char());
}

#[test]
fn next_cursor_continues_after_the_last_row() {
    let rows = vec![("a".to_string(), 1i64), ("b".to_string(), 2), ("c".to_string(), 3)];
    let (_, next) = truncate_failed_rows(rows, 40, 2);
    let offset = failed_page_offset(&FailedJobsQuery { cursor: next, limit: 2 }).unwrap();
    assert_eq!(offset, 42);
}

#[test]
fn purge_lookup_follows_the_selector() {
    assert!(matches!(purge_lookup(&FailedSelector::JobId("job-1".into())), PurgeLookup::Member { job_id } if job_id == "job-1"));
    let t = Timestamp::checked_from_micros_nanos(-1_500, 999).unwrap();
    assert!(matches!(purge_lookup(&FailedSelector::OlderThan(t)), PurgeLookup::Before { max } if max == "(-1500"));
    assert!(matches!(purge_lookup(&FailedSelector::All), PurgeLookup::All));
}

#[test]
fn instants_read_from_the_store_fall_on_whole_microseconds() {
    let record = job_record_from_lookup("j", JobLookup { ready_at: Some("-1".into()), ..lookup() }).unwrap().unwrap();
    let ready_at = record.ready_at.unwrap();
    assert_eq!(ready_at.timestamp_micros(), -1);
    assert_eq!(ready_at.sub_micro_nanos(), 0);
    let jobs = failed_page_jobs(vec![("a".to_string(), 5i64)], vec![None]);
    assert_eq!(jobs[0].failed_at.unwrap().sub_micro_nanos(), 0);
}
