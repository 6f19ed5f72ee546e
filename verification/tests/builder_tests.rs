use redloop::builder::JobBuilder;
use redloop::store::ReplaceMode;
use redloop::time::Timestamp;

fn now() -> Timestamp {
    Timestamp::checked_from_micros(chrono::Utc::now().timestamp_micros()).expect("valid timestamp")
}

#[test]
fn immediate_builder_converts_to_batch_item() {
    let item = JobBuilder::new("job-1".into()).into_batch_item();
    assert!(item.request.allow_existing_current_run);
    assert!(item.request.schedule_at.is_none());
}

#[test]
fn scheduled_builder_sets_replace_mode() {
    let item = JobBuilder::new("job-1".into())
        .schedule_at(now())
        .replace_if_later()
        .into_batch_item();

    assert!(!item.request.allow_existing_current_run);
    assert!(matches!(item.request.replace_mode, ReplaceMode::IfLater));
}

#[test]
fn scheduled_builder_replaces_always_by_default_and_keeps_its_time() {
    let at = Timestamp::checked_from_micros(1_764_000_000_000_000).unwrap();
    let item = JobBuilder::new("job-2".into()).schedule_at(at).into_batch_item();
    assert_eq!(item.request.job_id, "job-2");
    assert_eq!(item.request.schedule_at, Some(at));
    assert!(matches!(item.request.replace_mode, ReplaceMode::Always));
    assert!(!item.request.allow_existing_current_run);
}

#[test]
fn replace_if_earlier_sets_its_mode() {
    let at = Timestamp::checked_from_micros(5).unwrap();
    let request = JobBuilder::new("job-3".into()).schedule_at(at).replace_if_earlier().request();
    assert!(matches!(request.replace_mode, ReplaceMode::IfEarlier));
    assert_eq!(request.schedule_at, Some(at));
}

#[test]
fn immediate_request_replaces_always() {
    let request = JobBuilder::new("job-4".into()).request();
    assert_eq!(request.job_id, "job-4");
    assert!(matches!(request.replace_mode, ReplaceMode::Always));
}
