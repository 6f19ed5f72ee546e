use redloop::config::{Backoff, RetryPolicy};
use redloop::error::{Error, InvalidConfigKind};
use redloop::protocol::{
    backoff_args, failure_args, from_micros, parse_cursor, parse_enqueue_response, parse_fail_or_retry_response,
    parse_i64, parse_lease_response, parse_reap_response, parse_reschedule_response, parse_reserve_response,
    parse_state, parse_timestamp, replace_mode, validate_job_id,
};
use redloop::store::{FailureAction, FailureRequest, ReplaceMode};
use redloop::time::Timestamp;
use redloop::types::{EnqueueStatus, JobState};

fn reply(items: &[&str]) -> Vec<String> {
    items.iter().map(|s| s.to_string()).collect()
}

#[test]
fn job_ids_up_to_256_bytes_are_accepted() {
    assert!(validate_job_id(&"a".repeat(256)).is_ok());
    assert!(matches!(validate_job_id(&"a".repeat(257)), Err(Error::JobIdTooLong { length: 257 })));
    // Two bytes per character: 129 characters are 258 bytes.
    assert!(matches!(validate_job_id(&"é".repeat(129)), Err(Error::JobIdTooLong { length: 258 })));
}

#[test]
fn job_state_names_round_trip() {
    for state in [JobState::Ready, JobState::Scheduled, JobState::Leased, JobState::Failed] {
        assert_eq!(parse_state(state.as_str()).unwrap(), state);
    }
    assert!(matches!(parse_state("done"), Err(Error::InvalidData { field: "job_state" })));
}

#[test]
fn signed_fields_parse_like_i64() {
    assert_eq!(parse_i64("f", "-42").unwrap(), -42);
    assert_eq!(parse_i64("f", "+7").unwrap(), 7);
    assert_eq!(parse_i64("f", "-9223372036854775808").unwrap(), i64::MIN);
    assert!(matches!(parse_i64("f", "9223372036854775808"), Err(Error::InvalidData { field: "f" })));
    assert!(parse_i64("f", "").is_err());
    assert!(parse_i64("f", "-").is_err());
    assert!(parse_i64("f", "1x").is_err());
}

#[test]
fn timestamps_outside_the_calendar_are_rejected() {
    assert!(from_micros(8_210_266_876_799_999_999).is_ok());
    assert!(matches!(
        from_micros(8_210_266_876_800_000_000),
        Err(Error::InvalidTimestamp { micros: 8_210_266_876_800_000_000 })
    ));
    assert!(from_micros(-8_334_601_228_800_000_000).is_ok());
    assert!(from_micros(-8_334_601_228_800_000_001).is_err());
    assert_eq!(parse_timestamp("ready_at", "1764000000000000").unwrap().timestamp_micros(), 1_764_000_000_000_000);
    assert!(matches!(parse_timestamp("ready_at", "soon"), Err(Error::InvalidData { field: "ready_at" })));
}

#[test]
fn cursors_are_decimal_offsets() {
    assert_eq!(parse_cursor("25").unwrap(), 25);
    assert!(matches!(parse_cursor("-1"), Err(Error::InvalidCursor { cursor }) if cursor == "-1"));
    assert!(parse_cursor("").is_err());
}

#[test]
fn enqueue_reply_reports_status_and_state() {
    let result = parse_enqueue_response("job-1", reply(&["ok", "created", "ready"])).unwrap();
    assert_eq!(result.job_id, "job-1");
    assert_eq!(result.status, EnqueueStatus::Created);
    assert_eq!(result.state, JobState::Ready);
    assert!(matches!(
        parse_enqueue_response("job-1", reply(&["ok", "created"])),
        Err(Error::InvalidData { field: "enqueue.state" })
    ));
    assert!(matches!(
        parse_enqueue_response("job-1", reply(&["ok", "moved", "ready"])),
        Err(Error::InvalidData { field: "enqueue.status" })
    ));
}

#[test]
fn script_errors_map_to_library_errors() {
    assert!(matches!(
        parse_lease_response("job-1", reply(&["err", "lease_mismatch"])),
        Err(Error::LeaseMismatch { job_id }) if job_id == "job-1"
    ));
    assert!(matches!(
        parse_lease_response("job-1", reply(&["err", "not_found"])),
        Err(Error::NotFound { .. })
    ));
    assert!(matches!(
        parse_lease_response("job-1", reply(&["err", "invalid_state", "scheduled"])),
        Err(Error::InvalidState { state: JobState::Scheduled, .. })
    ));
    assert!(matches!(
        parse_lease_response("job-1", reply(&["err", "invalid_state"])),
        Err(Error::InvalidState { state: JobState::Failed, .. })
    ));
    assert!(matches!(
        parse_lease_response("job-1", reply(&["err", "invalid_config"])),
        Err(Error::InvalidConfig { kind: InvalidConfigKind::RetryPolicyMismatch })
    ));
    assert!(matches!(
        parse_lease_response("job-1", reply(&["err", "boom"])),
        Err(Error::InvalidData { field: "script.response" })
    ));
    assert!(parse_lease_response("job-1", reply(&["ok"])).is_ok());
}

#[test]
fn reschedule_reply_reads_state_and_schedule() {
    let r = parse_reschedule_response("job-1", reply(&["ok", "x", "scheduled", "1764000000000000"])).unwrap();
    assert_eq!(r.state, JobState::Scheduled);
    assert_eq!(r.schedule_at.unwrap().timestamp_micros(), 1_764_000_000_000_000);
    let r = parse_reschedule_response("job-1", reply(&["ok", "x", "ready", "0"])).unwrap();
    assert!(r.schedule_at.is_none());
    let r = parse_reschedule_response("job-1", reply(&["ok", "x", "ready"])).unwrap();
    assert!(r.schedule_at.is_none());
}

#[test]
fn reap_reply_counts_reclaimed_leases() {
    assert_eq!(parse_reap_response("ns", reply(&["ok", "3"])).unwrap(), 3);
    assert!(matches!(
        parse_reap_response("ns", reply(&["ok"])),
        Err(Error::InvalidData { field: "reap_expired.count" })
    ));
}

#[test]
fn reserve_reply_lists_leases_in_order() {
    let batch = parse_reserve_response(
        "worker-a",
        reply(&["ok", "1764000000000000", "job-1", "lease-1", "1764000030000000", "job-2", "lease-2", "1764000030000000"]),
    )
    .unwrap();
    assert_eq!(batch.jobs.len(), 2);
    assert_eq!(batch.jobs[0].job_id, "job-1");
    assert_eq!(batch.jobs[0].lease_token, "lease-1");
    assert_eq!(batch.jobs[1].job_id, "job-2");
    assert_eq!(batch.next_schedule_at.unwrap().timestamp_micros(), 1_764_000_000_000_000);

    let empty = parse_reserve_response("worker-a", reply(&["ok", "0"])).unwrap();
    assert!(empty.jobs.is_empty());
    assert!(empty.next_schedule_at.is_none());

    assert!(matches!(
        parse_reserve_response("worker-a", reply(&["ok", "0", "job-1", "lease-1"])),
        Err(Error::InvalidData { field: "reserve.response" })
    ));
    assert!(matches!(
        parse_reserve_response("worker-a", reply(&["ok", "0", "job-1", "lease-1", "later"])),
        Err(Error::InvalidData { field: "leased_until" })
    ));
}

#[test]
fn fail_or_retry_reply_reports_the_failure_count() {
    let count = parse_fail_or_retry_response("job-1", reply(&["ok", "2", "scheduled", "1764000000000000"])).unwrap();
    assert_eq!(count, 2);
}

#[test]
fn wire_names_of_modes_and_backoffs() {
    assert_eq!(replace_mode(ReplaceMode::Always), "replace");
    assert_eq!(replace_mode(ReplaceMode::IfEarlier), "earlier");
    assert_eq!(replace_mode(ReplaceMode::IfLater), "later");
    assert_eq!(backoff_args(&Backoff::Immediate), vec!["none", "0", "0", "0"]);
    assert_eq!(backoff_args(&Backoff::Fixed { delay_ms: 250 }), vec!["fixed", "250", "0", "0"]);
    assert_eq!(
        backoff_args(&Backoff::Exponential { initial_delay_ms: 100, multiplier: 3, max_delay_ms: 9000 }),
        vec!["exponential", "100", "3", "9000"]
    );
}

#[test]
fn failure_arguments_carry_the_policy() {
    let request = FailureRequest {
        worker_id: "worker-a".into(),
        job_id: "job-1".into(),
        lease_token: "lease-1".into(),
        action: FailureAction::Retryable,
        retry_policy: RetryPolicy::Count { max_retries: 5, backoff: Backoff::Fixed { delay_ms: 10 } },
        now: Timestamp::checked_from_micros(-3).unwrap(),
    };
    assert_eq!(
        failure_args(&request),
        vec!["job-1", "worker-a", "lease-1", "-3", "retryable", "count", "5", "fixed", "10", "0", "0"]
    );
    let request = FailureRequest { action: FailureAction::Terminal, retry_policy: RetryPolicy::Never, ..request };
    assert_eq!(
        failure_args(&request),
        vec!["job-1", "worker-a", "lease-1", "-3", "terminal", "never", "0", "none", "0", "0", "0"]
    );
}
