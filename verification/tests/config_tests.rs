use redloop::config::{Backoff, ConnectConfig, RedisDeployment, RetryPolicy, WorkerConfig};
use redloop::error::{Error, InvalidConfigKind};
use redloop::time::Duration;

fn valid_config() -> WorkerConfig {
    WorkerConfig {
        worker_id: "worker-a".into(),
        concurrency: 4,
        retry_policy: RetryPolicy::Never,
        lease_duration: Duration::from_secs(30),
        heartbeat_interval: Duration::from_secs(10),
        reap_interval: Duration::from_secs(1),
        poll_interval_min: Duration::from_millis(10),
        poll_interval_max: Duration::from_millis(100),
    }
}

fn invalid_kind(config: &WorkerConfig) -> InvalidConfigKind {
    match config.validate() {
        Err(Error::InvalidConfig { kind }) => kind,
        other => panic!("expected invalid config, got {other:?}"),
    }
}

#[test]
fn worker_config_validation_rejects_invalid_intervals() {
    let config = WorkerConfig {
        worker_id: "worker-a".into(),
        concurrency: 1,
        retry_policy: RetryPolicy::Never,
        lease_duration: Duration::from_secs(10),
        heartbeat_interval: Duration::from_secs(10),
        reap_interval: Duration::from_secs(1),
        poll_interval_min: Duration::from_millis(10),
        poll_interval_max: Duration::from_millis(100),
    };

    assert!(config.validate().is_err());
}

#[test]
fn valid_worker_config_is_accepted() {
    assert!(valid_config().validate().is_ok());
}

#[test]
fn each_worker_config_rule_has_its_error() {
    let mut c = valid_config();
    c.concurrency = 0;
    assert_eq!(invalid_kind(&c), InvalidConfigKind::ConcurrencyZero);

    let mut c = valid_config();
    c.lease_duration = Duration::zero();
    assert_eq!(invalid_kind(&c), InvalidConfigKind::LeaseDurationZero);

    let mut c = valid_config();
    c.heartbeat_interval = Duration::zero();
    assert_eq!(invalid_kind(&c), InvalidConfigKind::HeartbeatIntervalZero);

    let mut c = valid_config();
    c.heartbeat_interval = Duration::from_secs(30);
    assert_eq!(invalid_kind(&c), InvalidConfigKind::HeartbeatNotShorterThanLease);

    let mut c = valid_config();
    c.reap_interval = Duration::zero();
    assert_eq!(invalid_kind(&c), InvalidConfigKind::ReapIntervalZero);

    let mut c = valid_config();
    c.poll_interval_min = Duration::zero();
    assert_eq!(invalid_kind(&c), InvalidConfigKind::PollIntervalMinZero);

    let mut c = valid_config();
    c.poll_interval_max = Duration::from_millis(5);
    assert_eq!(invalid_kind(&c), InvalidConfigKind::PollIntervalRange);
}

#[test]
fn first_broken_worker_config_rule_is_reported() {
    let mut c = valid_config();
    c.concurrency = 0;
    c.lease_duration = Duration::zero();
    assert_eq!(invalid_kind(&c), InvalidConfigKind::ConcurrencyZero);
}

#[test]
fn equal_poll_bounds_are_accepted() {
    let mut c = valid_config();
    c.poll_interval_max = c.poll_interval_min;
    assert!(c.validate().is_ok());
}

#[test]
fn deployments_need_nodes_and_a_service_name() {
    let standalone = RedisDeployment::Standalone { url: "redis://127.0.0.1/".into() };
    assert!(standalone.validate().is_ok());

    let cluster = RedisDeployment::Cluster { nodes: vec![] };
    assert!(matches!(
        cluster.validate(),
        Err(Error::InvalidConfig { kind: InvalidConfigKind::EmptyRedisNodes })
    ));

    let sentinel = RedisDeployment::Sentinel { service_name: String::new(), nodes: vec!["a".into()] };
    assert!(matches!(
        sentinel.validate(),
        Err(Error::InvalidConfig { kind: InvalidConfigKind::EmptySentinelServiceName })
    ));

    let sentinel = RedisDeployment::Sentinel { service_name: "mymaster".into(), nodes: vec![] };
    assert!(matches!(
        sentinel.validate(),
        Err(Error::InvalidConfig { kind: InvalidConfigKind::EmptyRedisNodes })
    ));

    let config = ConnectConfig {
        deployment: RedisDeployment::Cluster { nodes: vec!["redis://a/".into()] },
        key_prefix: "redloop".into(),
        command_timeout: Duration::from_secs(5),
    };
    assert!(config.validate().is_ok());
}

#[test]
fn retry_policy_keys_have_their_canonical_text() {
    let mut c = valid_config();
    assert_eq!(c.retry_policy_key(), "never");
    c.retry_policy = RetryPolicy::Count { max_retries: 3, backoff: Backoff::Fixed { delay_ms: 250 } };
    assert_eq!(c.retry_policy_key(), "count:3:fixed:250");
    c.retry_policy = RetryPolicy::Infinite {
        backoff: Backoff::Exponential { initial_delay_ms: 100, multiplier: 2, max_delay_ms: 60000 },
    };
    assert_eq!(c.retry_policy_key(), "infinite:exponential:100:2:60000");
    assert_eq!(Backoff::Immediate.key(), "none");
}

#[test]
fn distinct_retry_policies_have_distinct_keys() {
    let policies = [
        RetryPolicy::Never,
        RetryPolicy::Count { max_retries: 1, backoff: Backoff::Immediate },
        RetryPolicy::Count { max_retries: 11, backoff: Backoff::Immediate },
        RetryPolicy::Count { max_retries: 1, backoff: Backoff::Fixed { delay_ms: 1 } },
        RetryPolicy::Infinite { backoff: Backoff::Fixed { delay_ms: 1 } },
        RetryPolicy::Infinite {
            backoff: Backoff::Exponential { initial_delay_ms: 1, multiplier: 12, max_delay_ms: 3 },
        },
        RetryPolicy::Infinite {
            backoff: Backoff::Exponential { initial_delay_ms: 11, multiplier: 2, max_delay_ms: 3 },
        },
    ];
    let keys: Vec<String> = policies
        .iter()
        .map(|p| WorkerConfig { retry_policy: *p, ..valid_config() }.retry_policy_key())
        .collect();
    for i in 0..keys.len() {
        for j in 0..keys.len() {
            if i != j {
                assert_ne!(keys[i], keys[j]);
            }
        }
    }
}

#[test]
fn invalid_config_messages_describe_the_rule() {
    assert_eq!(
        InvalidConfigKind::HeartbeatNotShorterThanLease.message(),
        "heartbeat_interval must be shorter than lease_duration"
    );
    assert_eq!(
        InvalidConfigKind::RetryPolicyMismatch.message(),
        "worker retry_policy does not match the namespace retry_policy"
    );
}
