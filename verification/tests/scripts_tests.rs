use redloop::config::{Backoff, RetryPolicy, WorkerConfig};
use redloop::keys::namespace_keys;
use redloop::protocol::parse_reschedule_response;
use redloop::scripts::{
    ack_call, complete_and_reschedule_call, enqueue_call, heartbeat_call, operator_transition_call, reap_call,
    reschedule_call, reserve_call,
};
use redloop::store::{EnqueueRequest, ReplaceMode};
use redloop::time::{Duration, Timestamp};

fn at(micros: i64) -> Timestamp {
    Timestamp::checked_from_micros(micros).unwrap()
}

#[test]
fn enqueue_call_lists_placement_keys_and_mode() {
    let keys = namespace_keys("p", "n");
    let request = EnqueueRequest {
        job_id: "job-1".into(),
        schedule_at: Some(at(2_000)),
        replace_mode: ReplaceMode::IfEarlier,
        allow_existing_current_run: false,
    };
    let call = enqueue_call(&keys, &request, at(1_000));
    assert_eq!(
        call.keys,
        vec!["p{6e}:failures", "p{6e}:ready", "p{6e}:scheduled", "p{6e}:leased", "p{6e}:failed", "p{6e}:rerun"]
    );
    assert_eq!(call.args, vec!["enqueue_scheduled", "job-1", "1000", "2000", "earlier"]);

    let immediate = EnqueueRequest {
        schedule_at: None,
        replace_mode: ReplaceMode::Always,
        allow_existing_current_run: true,
        ..request
    };
    assert_eq!(enqueue_call(&keys, &immediate, at(1_000)).args, vec!["enqueue_immediate", "job-1", "1000", "0", "replace"]);
}

#[test]
fn reschedule_call_always_replaces() {
    let keys = namespace_keys("p", "n");
    let call = reschedule_call(&keys, "job-1", None, at(-5));
    assert_eq!(call.args, vec!["reschedule", "job-1", "-5", "0", "replace"]);
}

#[test]
fn heartbeat_extends_the_lease_by_its_duration() {
    let keys = namespace_keys("p", "n");
    let call = heartbeat_call(&keys, "worker-a", "job-1", "lease-1", at(1_000), Duration::from_secs(30));
    assert_eq!(call.keys, vec!["p{6e}:leased", "p{6e}:lease_meta", "p{6e}:workers:last_seen"]);
    assert_eq!(call.args, vec!["job-1", "worker-a", "lease-1", "1000", "30001000"]);
}

#[test]
fn heartbeat_deadline_saturates() {
    let keys = namespace_keys("p", "n");
    let call = heartbeat_call(&keys, "w", "j", "l", at(8_000_000_000_000_000_000), Duration::from_secs(u64::MAX));
    assert_eq!(call.args[4], i64::MAX.to_string());
}

#[test]
fn reap_and_operator_calls() {
    let keys = namespace_keys("p", "n");
    let call = reap_call(&keys, at(7), 100);
    assert_eq!(call.keys, vec!["p{6e}:leased", "p{6e}:lease_meta", "p{6e}:ready", "p{6e}:workers:leases", "p{6e}:rerun"]);
    assert_eq!(call.args, vec!["7", "100"]);
    let call = operator_transition_call(&keys, "cancel", "job-1", at(9));
    assert_eq!(call.keys.len(), 8);
    assert_eq!(call.args, vec!["cancel", "job-1", "9"]);
}

#[test]
fn reserve_call_carries_the_configuration() {
    let keys = namespace_keys("p", "n");
    let config = WorkerConfig {
        worker_id: "worker-a".into(),
        concurrency: 2,
        retry_policy: RetryPolicy::Count { max_retries: 1, backoff: Backoff::Immediate },
        lease_duration: Duration::from_secs(30),
        heartbeat_interval: Duration::from_secs(10),
        reap_interval: Duration::from_secs(1),
        poll_interval_min: Duration::from_millis(10),
        poll_interval_max: Duration::from_millis(100),
    };
    assert!(reserve_call(&keys, &config, 0, at(1_000), vec![]).is_none());
    let call = reserve_call(&keys, &config, 2, at(1_000), vec!["t1".into(), "t2".into()]).unwrap();
    assert_eq!(call.keys[0], "p{6e}:cfg");
    assert_eq!(call.keys.len(), 8);
    assert_eq!(
        call.args,
        vec![
            "worker-a",
            "1000",
            "2",
            "30000000",
            "count:1:none",
            "2:30000:10000:1000:10:100:count:1:none",
            "t1",
            "t2",
        ]
    );
}

#[test]
fn ack_and_reschedule_completion_calls_name_the_attempt() {
    let keys = namespace_keys("p", "n");
    let call = ack_call(&keys, "worker-a", "job-1", "lease-1", at(5));
    assert_eq!(
        call.keys,
        vec!["p{6e}:leased", "p{6e}:lease_meta", "p{6e}:failures", "p{6e}:workers:leases", "p{6e}:ready", "p{6e}:rerun"]
    );
    assert_eq!(call.args, vec!["job-1", "worker-a", "lease-1", "5"]);
    let call = complete_and_reschedule_call(&keys, "worker-a", "job-1", "lease-1", Some(at(99)), at(5));
    assert_eq!(call.args, vec!["job-1", "worker-a", "lease-1", "5", "99"]);
    let call = complete_and_reschedule_call(&keys, "worker-a", "job-1", "lease-1", None, at(5));
    assert_eq!(call.args, vec!["job-1", "worker-a", "lease-1", "5", "0"]);
}

#[test]
fn schedule_written_as_argument_reads_back_unless_at_the_epoch() {
    let keys = namespace_keys("p", "n");
    let later = reschedule_call(&keys, "job-1", Some(at(1_764_000_000_000_000)), at(0));
    let reply = vec!["ok".to_string(), "x".to_string(), "scheduled".to_string(), later.args[3].clone()];
    let read = parse_reschedule_response("job-1", reply).unwrap();
    assert_eq!(read.schedule_at, Some(at(1_764_000_000_000_000)));

    let epoch = reschedule_call(&keys, "job-1", Some(at(0)), at(0));
    assert_eq!(epoch.args[3], "0");
    let reply = vec!["ok".to_string(), "x".to_string(), "scheduled".to_string(), epoch.args[3].clone()];
    assert!(parse_reschedule_response("job-1", reply).unwrap().schedule_at.is_none());
}
