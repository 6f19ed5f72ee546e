use redloop::config::{Backoff, RetryPolicy, WorkerConfig};
use redloop::error::{Error, InvalidConfigKind, RedisFault};
use redloop::store::{FailureAction, ReserveBatch, ReservedJob};
use redloop::time::{Duration, Timestamp};
use redloop::types::JobOutcome;
use redloop::worker::{
    ActiveLease, CompletedLease, CompletionAction, LeaseAttemptKey, LeaseBook, LoopBranches, PollState, Settlement,
    available_capacity, completion_action, new_lease_tokens, recoverable_runtime_result,
};

fn worker_config() -> WorkerConfig {
    worker_config_with_concurrency(1)
}

fn worker_config_with_concurrency(concurrency: usize) -> WorkerConfig {
    WorkerConfig {
        worker_id: "worker-test".to_owned(),
        concurrency,
        retry_policy: RetryPolicy::Infinite {
            backoff: Backoff::Fixed { delay_ms: 100 },
        },
        lease_duration: Duration::from_secs(30),
        heartbeat_interval: Duration::from_secs(5),
        reap_interval: Duration::from_secs(10),
        poll_interval_min: Duration::from_millis(50),
        poll_interval_max: Duration::from_secs(1),
    }
}

fn completion_config() -> WorkerConfig {
    let mut config = worker_config();
    config.heartbeat_interval = Duration::from_millis(5);
    config.poll_interval_min = Duration::from_millis(50);
    config.poll_interval_max = Duration::from_millis(50);
    config
}

fn assert_invalid_config(result: redloop::error::Result<()>, expected: InvalidConfigKind) {
    match result {
        Err(Error::InvalidConfig { kind }) => assert_eq!(kind, expected),
        other => panic!("expected invalid config error, got {other:?}"),
    }
}

fn poll_config() -> WorkerConfig {
    WorkerConfig {
        poll_interval_min: Duration::from_millis(10),
        poll_interval_max: Duration::from_millis(50),
        ..worker_config_with_concurrency(2)
    }
}

fn at(micros: i64) -> Timestamp {
    Timestamp::checked_from_micros(micros).unwrap()
}

fn job(job_id: &str, lease_token: &str) -> ReservedJob {
    ReservedJob { job_id: job_id.into(), lease_token: lease_token.into() }
}

fn completed(job_id: &str, lease_token: &str, result: Result<JobOutcome, String>) -> CompletedLease {
    CompletedLease { job_id: job_id.into(), lease_token: lease_token.into(), result }
}

fn timeout() -> Error {
    Error::CommandTimedOut { operation: "ack", timeout_ms: 50 }
}

#[test]
fn attempt_keys_compare_job_and_token() {
    let a = LeaseAttemptKey::new("job-1".into(), "lease-1".into());
    let b = LeaseAttemptKey::new("job-1".into(), "lease-2".into());
    assert!(a.same(&a.clone()));
    assert!(!a.same(&b));
}

#[test]
fn active_lease_heartbeat_can_be_disabled() {
    let mut lease = ActiveLease::new("job-1".into(), "lease-1".into());
    assert!(lease.heartbeat_enabled());
    assert!(!lease.without_heartbeat().heartbeat_enabled());
    lease.disable_heartbeat();
    assert!(!lease.heartbeat_enabled());
    assert_eq!(lease.attempt_key(), LeaseAttemptKey::new("job-1".into(), "lease-1".into()));
}

#[test]
fn capacity_never_goes_below_zero() {
    assert_eq!(available_capacity(4, 1), 3);
    assert_eq!(available_capacity(1, 3), 0);
}

#[test]
fn completion_actions_follow_the_outcome() {
    let config = worker_config();
    let now = at(1_764_000_000_000_000);
    assert!(matches!(completion_action(&completed("j", "l", Ok(JobOutcome::Complete)), &config, now), CompletionAction::Ack));
    let later = Some(at(1_764_000_060_000_000));
    assert!(matches!(
        completion_action(&completed("j", "l", Ok(JobOutcome::Reschedule { schedule_at: later })), &config, now),
        CompletionAction::CompleteAndReschedule { schedule_at } if schedule_at == later
    ));
    match completion_action(&completed("j", "l", Ok(JobOutcome::Fail { message: "bad".into() })), &config, now) {
        CompletionAction::FailOrRetry { request } => {
            assert_eq!(request.action, FailureAction::Terminal);
            assert_eq!(request.worker_id, "worker-test");
            assert_eq!(request.job_id, "j");
            assert_eq!(request.lease_token, "l");
            assert_eq!(request.now, now);
        },
        other => panic!("expected a failure report, got {other:?}"),
    }
    match completion_action(&completed("j", "l", Err("flaky".into())), &config, now) {
        CompletionAction::FailOrRetry { request } => assert_eq!(request.action, FailureAction::Retryable),
        other => panic!("expected a failure report, got {other:?}"),
    }
}

#[test]
fn periodic_call_failures_back_off_only_when_recoverable() {
    assert!(!recoverable_runtime_result("heartbeat", Ok(())).unwrap());
    assert!(recoverable_runtime_result("reap_expired", Err(timeout())).unwrap());
    let dropped = Error::Redis {
        operation: "heartbeat",
        source: RedisFault::from_error(std::io::Error::new(std::io::ErrorKind::BrokenPipe, "gone").into()),
    };
    assert!(recoverable_runtime_result("heartbeat", Err(dropped)).unwrap());
    assert!(matches!(
        recoverable_runtime_result("heartbeat", Err(Error::InvalidData { field: "lease_meta" })),
        Err(Error::InvalidData { field: "lease_meta" })
    ));
}

#[test]
fn lease_book_counts_active_leases_against_capacity() {
    let mut book = LeaseBook::new();
    assert_eq!(book.capacity(2), 2);
    book.start(job("job-1", "lease-1"));
    book.start(job("job-1", "lease-1"));
    assert_eq!(book.active_len(), 1);
    book.start(job("job-2", "lease-2"));
    assert_eq!(book.capacity(2), 0);
    assert_eq!(book.heartbeat_targets().len(), 2);
}

#[test]
fn settled_completion_releases_its_lease() {
    let mut book = LeaseBook::new();
    book.start(job("job-1", "lease-1"));
    book.record_completion(completed("job-1", "lease-1", Ok(JobOutcome::Complete)));
    assert_eq!(book.pending_len(), 1);
    let c = book.take_pending().unwrap();
    assert_eq!(book.pending_len(), 0);
    assert_eq!(book.settle(c, Ok(())).unwrap(), Settlement::Settled);
    assert_eq!(book.active_len(), 0);
    assert!(book.take_pending().is_none());
}

#[test]
fn recoverable_completion_failure_keeps_the_lease_and_the_completion() {
    let mut book = LeaseBook::new();
    book.start(job("job-1", "lease-1"));
    book.record_completion(completed("job-1", "lease-1", Ok(JobOutcome::Complete)));
    let c = book.take_pending().unwrap();
    assert_eq!(book.settle(c, Err(timeout())).unwrap(), Settlement::BackOff);
    assert_eq!(book.active_len(), 1);
    assert_eq!(book.pending_len(), 1);
    let again = book.take_pending().unwrap();
    assert_eq!(again.job_id, "job-1");
    assert_eq!(book.settle(again, Ok(())).unwrap(), Settlement::Settled);
    assert_eq!(book.active_len(), 0);
}

#[test]
fn lost_lease_drops_the_completion() {
    let mut book = LeaseBook::new();
    book.start(job("job-1", "lease-1"));
    book.record_completion(completed("job-1", "lease-1", Ok(JobOutcome::Complete)));
    let c = book.take_pending().unwrap();
    let r = book.settle(c, Err(Error::LeaseMismatch { job_id: "job-1".into() }));
    assert_eq!(r.unwrap(), Settlement::Lost);
    assert_eq!(book.active_len(), 0);
    assert_eq!(book.pending_len(), 0);
}

#[test]
fn fatal_completion_failure_is_handed_back() {
    let mut book = LeaseBook::new();
    book.start(job("job-1", "lease-1"));
    book.record_completion(completed("job-1", "lease-1", Ok(JobOutcome::Complete)));
    let c = book.take_pending().unwrap();
    let r = book.settle(c, Err(Error::InvalidData { field: "script.response" }));
    assert!(matches!(r, Err(Error::InvalidData { field: "script.response" })));
    assert_eq!(book.active_len(), 1);
    assert_eq!(book.pending_len(), 0);
}

#[test]
fn heartbeat_lease_mismatch_stops_heartbeats_but_keeps_capacity() {
    let mut book = LeaseBook::new();
    book.start(job("job-1", "lease-1"));
    let key = LeaseAttemptKey::new("job-1".into(), "lease-1".into());
    assert!(book.heartbeat_result(&key, Err(Error::LeaseMismatch { job_id: "job-1".into() })).is_ok());
    assert_eq!(book.active_len(), 1);
    assert_eq!(book.capacity(1), 0);
    assert!(book.heartbeat_targets().is_empty());
}

#[test]
fn heartbeat_timeout_keeps_the_worker_running() {
    let mut book = LeaseBook::new();
    book.start(job("job-1", "lease-1"));
    let key = LeaseAttemptKey::new("job-1".into(), "lease-1".into());
    let r = book.heartbeat_result(&key, Err(timeout()));
    assert!(recoverable_runtime_result("heartbeat", r).unwrap());
    assert_eq!(book.heartbeat_targets().len(), 1);
    assert!(matches!(
        book.heartbeat_result(&key, Err(Error::InvalidData { field: "lease_meta" })),
        Err(Error::InvalidData { .. })
    ));
}

#[test]
fn idle_polls_double_the_delay_up_to_the_maximum() {
    let config = poll_config();
    let now = at(1_000_000);
    let mut poll = PollState::new(&config);
    assert!(!poll.sleeping());
    assert_eq!(poll.sleep_for(now), Duration::from_millis(10));

    let empty = ReserveBatch { jobs: vec![], next_schedule_at: None };
    poll.on_reserved(&empty, now, &config);
    assert!(poll.sleeping());
    assert_eq!(poll.sleep_for(now), Duration::from_millis(10));
    poll.on_sleep_elapsed(&config);
    assert_eq!(poll.sleep_for(now), Duration::from_millis(20));
    poll.on_reserved(&empty, now, &config);
    poll.on_sleep_elapsed(&config);
    assert_eq!(poll.sleep_for(now), Duration::from_millis(40));
    poll.on_reserved(&empty, now, &config);
    poll.on_sleep_elapsed(&config);
    assert_eq!(poll.sleep_for(now), Duration::from_millis(50));

    let busy = ReserveBatch { jobs: vec![job("job-1", "lease-1")], next_schedule_at: None };
    poll.on_reserved(&busy, now, &config);
    assert_eq!(poll.sleep_for(now), Duration::from_millis(10));
}

#[test]
fn idle_sleep_stops_at_the_next_due_job() {
    let config = poll_config();
    let now = at(1_000_000);
    let mut poll = PollState::new(&config);
    let batch = ReserveBatch { jobs: vec![], next_schedule_at: Some(at(1_004_000)) };
    poll.on_reserved(&batch, now, &config);
    assert_eq!(poll.sleep_for(now), Duration::from_millis(4));
}

#[test]
fn reserve_timeout_backs_off_and_fatal_errors_stop() {
    let config = poll_config();
    let mut poll = PollState::new(&config);
    assert!(poll.on_reserve_failed(timeout(), &config).is_ok());
    assert!(poll.sleeping());
    assert_eq!(poll.sleep_for(at(0)), Duration::from_millis(10));
    poll.on_sleep_elapsed(&config);
    assert_eq!(poll.sleep_for(at(0)), Duration::from_millis(20));
    let r = poll.on_reserve_failed(Error::WorkerTaskJoin { message: "panicked".into() }, &config);
    assert!(matches!(r, Err(Error::WorkerTaskJoin { .. })));
}

#[test]
fn runtime_configurations_validate() {
    assert!(worker_config().validate().is_ok());
    assert!(completion_config().validate().is_ok());
    assert!(worker_config_with_concurrency(8).validate().is_ok());
    assert_invalid_config(worker_config_with_concurrency(0).validate(), InvalidConfigKind::ConcurrencyZero);
    let mut config = completion_config();
    config.poll_interval_max = Duration::from_millis(49);
    assert_invalid_config(config.validate(), InvalidConfigKind::PollIntervalRange);
}

#[test]
fn worker_sleep_never_exceeds_the_maximum_poll_interval() {
    let config = completion_config();
    let mut poll = PollState::new(&config);
    let empty = ReserveBatch { jobs: vec![], next_schedule_at: None };
    for _ in 0..5 {
        poll.on_reserved(&empty, at(0), &config);
        assert!(poll.sleep_for(at(0)).le(&config.poll_interval_max));
        poll.on_sleep_elapsed(&config);
        assert!(poll.sleep_for(at(0)).le(&config.poll_interval_max));
    }
}

#[test]
fn lease_tokens_are_fresh_uuids() {
    let tokens = new_lease_tokens(3);
    assert_eq!(tokens.len(), 3);
    for token in &tokens {
        assert_eq!(token.len(), 36);
        assert_eq!(token.matches('-').count(), 4);
        for (i, c) in token.chars().enumerate() {
            if [8, 13, 18, 23].contains(&i) {
                assert_eq!(c, '-');
            } else {
                assert!(c.is_ascii_digit() || ('a'..='f').contains(&c));
            }
        }
        assert_eq!(token.as_bytes()[14], b'7');
        assert!(matches!(token.as_bytes()[19], b'8' | b'9' | b'a' | b'b'));
    }
    assert_ne!(tokens[0], tokens[1]);
    assert!(new_lease_tokens(0).is_empty());
}

#[test]
fn loop_branches_follow_capacity_sleep_and_backoff() {
    let config = poll_config();
    let mut book = LeaseBook::new();
    let mut poll = PollState::new(&config);
    assert_eq!(
        book.loop_branches(&poll, 2, false, false),
        LoopBranches { join: false, heartbeat: false, reap: true, backoff_sleep: false, reserve: true, reserve_sleep: false }
    );
    book.start(job("job-1", "lease-1"));
    book.start(job("job-2", "lease-2"));
    let full = book.loop_branches(&poll, 2, true, false);
    assert!(full.join && full.heartbeat && !full.reserve && !full.reserve_sleep);

    let mut book = LeaseBook::new();
    poll.on_reserved(&ReserveBatch { jobs: vec![], next_schedule_at: None }, at(0), &config);
    let sleeping = book.loop_branches(&poll, 2, false, false);
    assert!(!sleeping.reserve && sleeping.reserve_sleep);
    book.start(job("job-3", "lease-3"));
    let backing_off = book.loop_branches(&PollState::new(&config), 2, false, true);
    assert!(!backing_off.reserve && !backing_off.reap && backing_off.backoff_sleep && backing_off.heartbeat);
}
