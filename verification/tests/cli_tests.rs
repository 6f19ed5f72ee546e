use redloop::cli::{ConnectArgs, DEFAULT_REDIS_URL, PurgeFailedArgs, older_than_selector};
use redloop::config::RedisDeployment;
use redloop::error::Error;
use redloop::types::FailedSelector;

fn args() -> ConnectArgs {
    ConnectArgs {
        key_prefix: "redloop".into(),
        command_timeout_ms: 5000,
        redis_url: None,
        sentinel_service_name: None,
        sentinel_node: vec![],
        cluster_node: vec![],
    }
}

fn purge() -> PurgeFailedArgs {
    PurgeFailedArgs { namespace: "ns".into(), job_id: None, older_than: None, all: false }
}

#[test]
fn connection_options_select_the_deployment() {
    let config = args().to_config().unwrap();
    assert!(matches!(&config.deployment, RedisDeployment::Standalone { url } if url == DEFAULT_REDIS_URL));
    assert_eq!(config.key_prefix, "redloop");
    assert_eq!(config.command_timeout.as_millis(), 5000);

    let config = ConnectArgs { redis_url: Some("redis://db/".into()), ..args() }.to_config().unwrap();
    assert!(matches!(&config.deployment, RedisDeployment::Standalone { url } if url == "redis://db/"));

    let config = ConnectArgs { sentinel_node: vec!["s1".into()], ..args() }.to_config().unwrap();
    assert!(matches!(&config.deployment, RedisDeployment::Sentinel { service_name, nodes }
        if service_name.is_empty() && nodes == &vec!["s1".to_string()]));

    let config = ConnectArgs {
        sentinel_service_name: Some("mymaster".into()),
        cluster_node: vec!["c1".into(), "c2".into()],
        ..args()
    }
    .to_config()
    .unwrap();
    assert!(matches!(&config.deployment, RedisDeployment::Cluster { nodes } if nodes.len() == 2));
}

#[test]
fn purge_selector_prefers_a_job_then_a_time_then_all() {
    let by_job = PurgeFailedArgs { job_id: Some("job-1".into()), older_than: Some("nonsense".into()), ..purge() };
    assert_eq!(by_job.selector().unwrap(), FailedSelector::JobId("job-1".into()));

    let by_time = PurgeFailedArgs { older_than: Some("2024-01-02T03:04:05Z".into()), ..purge() };
    match by_time.selector().unwrap() {
        FailedSelector::OlderThan(t) => assert_eq!(t.timestamp_micros(), 1_704_164_645_000_000),
        other => panic!("expected a time selector, got {other:?}"),
    }

    let offset = PurgeFailedArgs { older_than: Some("2024-01-02T04:04:05.25+01:00".into()), ..purge() };
    match offset.selector().unwrap() {
        FailedSelector::OlderThan(t) => assert_eq!(t.timestamp_micros(), 1_704_164_645_250_000),
        other => panic!("expected a time selector, got {other:?}"),
    }

    let bad = PurgeFailedArgs { older_than: Some("yesterday".into()), ..purge() };
    assert!(matches!(bad.selector(), Err(Error::InvalidCursor { cursor }) if cursor == "yesterday"));

    assert_eq!(purge().selector().unwrap(), FailedSelector::All);
    assert_eq!(PurgeFailedArgs { all: true, ..purge() }.selector().unwrap(), FailedSelector::All);
}

#[test]
fn older_than_selector_checks_the_timestamp_range() {
    let text = "t".to_string();
    assert!(matches!(older_than_selector(&text, Some((42, 0))), Ok(FailedSelector::OlderThan(t)) if t.timestamp_micros() == 42));
    assert!(matches!(older_than_selector(&text, None), Err(Error::InvalidCursor { .. })));
    assert!(matches!(older_than_selector(&text, Some((i64::MAX, 0))), Err(Error::InvalidCursor { .. })));
}

#[test]
fn purge_selector_keeps_nanoseconds() {
    let precise = PurgeFailedArgs { older_than: Some("2024-01-02T03:04:05.123456789Z".into()), ..purge() };
    match precise.selector().unwrap() {
        FailedSelector::OlderThan(t) => {
            assert_eq!(t.timestamp_micros(), 1_704_164_645_123_456);
            assert_eq!(t.sub_micro_nanos(), 789);
        }
        other => panic!("expected a time selector, got {other:?}"),
    }
    let text = "t".to_string();
    assert!(matches!(
        older_than_selector(&text, Some((7, 1_000_000_123))),
        Ok(FailedSelector::OlderThan(t)) if t.timestamp_micros() == 7 && t.sub_micro_nanos() == 123
    ));
}
