use newsbot::retry::{
    backoff_ms, classify, retry_step, Class, RetryDecision, RetryPolicy, RetryState,
    TransportEvent,
};

fn policy() -> RetryPolicy {
    RetryPolicy {
        max_attempts: 3,
        base_delay_ms: 100,
    }
}

#[test]
fn server_error_is_retried_up_to_the_bound() {
    let policy = policy();
    let mut state = RetryState { attempts_made: 0 };

    let first = retry_step(&policy, &mut state, &TransportEvent::Status(503));
    assert_eq!(first, RetryDecision::RetryAfter(100));

    let second = retry_step(&policy, &mut state, &TransportEvent::Status(503));
    assert_eq!(second, RetryDecision::RetryAfter(200));

    let third = retry_step(&policy, &mut state, &TransportEvent::Status(503));
    assert_eq!(third, RetryDecision::GiveUp);
    assert_eq!(state.attempts_made, 3);
}

#[test]
fn client_error_surfaces_immediately() {
    let policy = policy();
    let mut state = RetryState { attempts_made: 0 };

    let first = retry_step(&policy, &mut state, &TransportEvent::Status(404));

    assert_eq!(first, RetryDecision::GiveUp);
    assert_eq!(state.attempts_made, 1);
}

#[test]
fn success_ends_the_run() {
    let policy = policy();
    let mut state = RetryState { attempts_made: 0 };

    let first = retry_step(&policy, &mut state, &TransportEvent::Status(200));

    assert_eq!(first, RetryDecision::Succeeded);
}

#[test]
fn connection_failures_and_timeouts_are_transient() {
    assert_eq!(classify(&TransportEvent::ConnectionFailed), Class::Transient);
    assert_eq!(classify(&TransportEvent::TimedOut), Class::Transient);
    assert_eq!(classify(&TransportEvent::Status(502)), Class::Transient);
    assert_eq!(classify(&TransportEvent::Status(404)), Class::Permanent);
    assert_eq!(classify(&TransportEvent::Status(301)), Class::Permanent);
    assert_eq!(classify(&TransportEvent::Status(204)), Class::Success);
}

#[test]
fn backoff_doubles_and_saturates() {
    assert_eq!(backoff_ms(100, 1), 100);
    assert_eq!(backoff_ms(100, 2), 200);
    assert_eq!(backoff_ms(100, 3), 400);
    assert_eq!(backoff_ms(100, 4), 800);
    assert_eq!(backoff_ms(u64::MAX - 1, 3), u64::MAX);
}
