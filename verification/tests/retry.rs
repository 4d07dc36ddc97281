use mbus::errors::Error;
use mbus::retry::{QuietRetry, RetryDecision, RETRY_INTERVAL_MS};

#[test]
fn retry_interval_is_half_a_second() {
    assert_eq!(RETRY_INTERVAL_MS, 500);
}

#[test]
fn first_failure_warns_later_failures_are_quiet() {
    let mut r = QuietRetry::new();
    assert_eq!(r.attempt(false), RetryDecision::Sleep { log: true });
    for _ in 0..100 {
        assert_eq!(r.attempt(false), RetryDecision::Sleep { log: false });
    }
    assert_eq!(r.attempt(true), RetryDecision::Proceed);
}

#[test]
fn immediate_success_neither_warns_nor_sleeps() {
    let mut r = QuietRetry::new();
    assert_eq!(r.attempt(true), RetryDecision::Proceed);
}

#[test]
fn connect_failed_message() {
    let e = Error::ConnectFailed {
        cause: "connection refused".to_string(),
        server: "nats://127.0.0.1:4222".to_string(),
    };
    assert_eq!(
        e.message(),
        "Failed to connect to the NATS server nats://127.0.0.1:4222: connection refused"
    );
}

#[test]
fn not_started_message() {
    assert_eq!(
        Error::NotStarted.message(),
        "Cannot issue requests if message bus hasn't been started"
    );
}

#[test]
fn queue_register_message() {
    let e = Error::QueueRegister { cause: "broken pipe".to_string() };
    assert_eq!(e.message(), "Failed to queue register request: broken pipe");
}

#[test]
fn queue_deregister_message() {
    let e = Error::QueueDeregister { cause: "broken pipe".to_string() };
    assert_eq!(e.message(), "Failed to queue deregister request: broken pipe");
}
