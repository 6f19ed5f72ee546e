use std::io;

use redis::{ErrorKind, RedisError};

use redloop::error::{CommandElapsed, Error, RedisFault, command_result};
use redloop::time::Duration;

#[test]
fn redis_response_timeout_uses_the_configured_command_error() {
    let source = io::Error::new(io::ErrorKind::TimedOut, "delayed reply");
    let error = command_result::<()>(
        "reserve",
        Duration::from_secs(5),
        Ok(Err(RedisFault::from_error(source.into()))),
    )
    .unwrap_err();
    assert!(matches!(
        error,
        Error::CommandTimedOut {
            operation: "reserve",
            timeout_ms: 5000
        }
    ));
    assert!(error.is_recoverable_worker_runtime());
}

#[test]
fn other_redis_errors_keep_their_source_and_classification() {
    let source = RedisError::from((ErrorKind::AuthenticationFailed, "invalid credential"));
    let error = command_result::<()>(
        "reserve",
        Duration::from_secs(5),
        Ok(Err(RedisFault::from_error(source))),
    )
    .unwrap_err();
    assert!(
        matches!(&error, Error::Redis { operation: "reserve", source } if source.error.kind() == ErrorKind::AuthenticationFailed)
    );
    assert!(!error.is_recoverable_worker_runtime());
}

#[test]
fn elapsed_deadline_is_a_command_timeout() {
    let error = command_result::<u32>("ack", Duration::from_millis(1500), Err(CommandElapsed)).unwrap_err();
    assert!(matches!(
        error,
        Error::CommandTimedOut {
            operation: "ack",
            timeout_ms: 1500
        }
    ));
}

#[test]
fn successful_command_passes_its_value_through() {
    let value = command_result::<u32>("counts", Duration::from_secs(1), Ok(Ok(7))).unwrap();
    assert_eq!(value, 7);
}

#[test]
fn sub_millisecond_timeout_truncates_to_whole_milliseconds() {
    let error = command_result::<()>("reap", Duration::from_micros(1999), Err(CommandElapsed)).unwrap_err();
    assert!(matches!(error, Error::CommandTimedOut { timeout_ms: 1, .. }));
}
