//! The retrying-transport discipline: bounded exponential backoff, applied
//! only to transient failures — server errors, connection failures and
//! timeouts. Client errors are permanent by definition and surface at once.

use vstd::prelude::*;

verus! {

/// How one outbound attempt ended, as the transport sees it.
#[derive(Debug, PartialEq, Eq, Structural, Clone, Copy)]
pub enum TransportEvent {
    /// The call completed with this status code.
    Status(u16),
    /// The connection could not be made or was reset.
    ConnectionFailed,
    /// The call timed out.
    TimedOut,
}

/// The class an attempt's end falls in.
#[derive(Debug, PartialEq, Eq, Structural, Clone, Copy)]
pub enum Class {
    /// A success status: done.
    Success,
    /// Worth retrying: a server error, a failed connection or a timeout.
    Transient,
    /// Not retried: client errors and everything else.
    Permanent,
}

/// The class of a status code: success for the success family, transient
/// for the server-error family, permanent otherwise.
pub open spec fn spec_class_of_status(code: u16) -> Class {
    if 200 <= code < 300 {
        Class::Success
    } else if 500 <= code < 600 {
        Class::Transient
    } else {
        Class::Permanent
    }
}

/// The class of a transport event.
pub open spec fn spec_class(e: TransportEvent) -> Class {
    match e {
        TransportEvent::Status(code) => spec_class_of_status(code),
        TransportEvent::ConnectionFailed => Class::Transient,
        TransportEvent::TimedOut => Class::Transient,
    }
}

/// Classifies a transport event.
pub fn classify(e: &TransportEvent) -> (r: Class)
    ensures
        r == spec_class(*e),
{
    match e {
        TransportEvent::Status(code) => {
            if 200 <= *code && *code < 300 {
                Class::Success
            } else if 500 <= *code && *code < 600 {
                Class::Transient
            } else {
                Class::Permanent
            }
        },
        TransportEvent::ConnectionFailed => Class::Transient,
        TransportEvent::TimedOut => Class::Transient,
    }
}

/// The retry discipline: how many attempts at most, and the first delay.
#[derive(Debug, Clone, Copy)]
pub struct RetryPolicy {
    pub max_attempts: u32,
    pub base_delay_ms: u64,
}

/// How many attempts have been made so far.
#[derive(Debug, Clone, Copy)]
pub struct RetryState {
    pub attempts_made: u32,
}

/// What to do after an attempt.
#[derive(Debug, PartialEq, Eq, Structural, Clone, Copy)]
pub enum RetryDecision {
    /// The attempt succeeded.
    Succeeded,
    /// The failure is permanent, or the attempt bound is reached: surface it.
    GiveUp,
    /// Wait this many milliseconds, then try again.
    RetryAfter(u64),
}

/// The delay before the attempt after `attempt`: the base delay, doubled for
/// each attempt already made, saturating instead of overflowing.
pub open spec fn spec_backoff_ms(base: u64, attempt: nat) -> u64
    decreases attempt,
{
    if attempt <= 1 {
        base
    } else {
        let p = spec_backoff_ms(base, (attempt - 1) as nat);
        if p * 2 <= u64::MAX {
            (p * 2) as u64
        } else {
            u64::MAX
        }
    }
}

/// Computes the backoff delay after `attempt` attempts.
pub fn backoff_ms(base: u64, attempt: u32) -> (r: u64)
    ensures
        r == spec_backoff_ms(base, attempt as nat),
{
    let mut d = base;
    let mut k: u32 = 1;
    if attempt <= 1 {
        return d;
    }
    while k < attempt
        invariant
            1 <= k <= attempt,
            d == spec_backoff_ms(base, k as nat),
        decreases attempt - k,
    {
        if d <= u64::MAX / 2 {
            d = d * 2;
        } else {
            d = u64::MAX;
        }
        k += 1;
    }
    d
}

/// The state and decision after one attempt ends with `e`: success and
/// permanent failures end the run; a transient failure is retried with the
/// next backoff delay until the attempt bound is reached.
pub open spec fn spec_retry_step(policy: RetryPolicy, state: RetryState, e: TransportEvent) -> (
    RetryState,
    RetryDecision,
) {
    let made = if state.attempts_made < u32::MAX {
        (state.attempts_made + 1) as u32
    } else {
        u32::MAX
    };
    let st2 = RetryState { attempts_made: made };
    match spec_class(e) {
        Class::Success => (st2, RetryDecision::Succeeded),
        Class::Permanent => (st2, RetryDecision::GiveUp),
        Class::Transient => if made >= policy.max_attempts {
            (st2, RetryDecision::GiveUp)
        } else {
            (st2, RetryDecision::RetryAfter(spec_backoff_ms(policy.base_delay_ms, made as nat)))
        },
    }
}

/// Advances the retry state by one attempt's event.
pub fn retry_step(policy: &RetryPolicy, state: &mut RetryState, e: &TransportEvent) -> (d:
    RetryDecision)
    ensures
        (*final(state), d) == spec_retry_step(*policy, *old(state), *e),
{
    let made = if state.attempts_made < u32::MAX {
        state.attempts_made + 1
    } else {
        u32::MAX
    };
    state.attempts_made = made;
    match classify(e) {
        Class::Success => RetryDecision::Succeeded,
        Class::Permanent => RetryDecision::GiveUp,
        Class::Transient => {
            if made >= policy.max_attempts {
                RetryDecision::GiveUp
            } else {
                RetryDecision::RetryAfter(backoff_ms(policy.base_delay_ms, made))
            }
        },
    }
}

/// How a whole run goes: the number of attempts made on this event sequence
/// and how the run ends. Each event is one attempt's end; the run stops at
/// the first decision other than a retry.
pub open spec fn spec_retry_run(policy: RetryPolicy, state: RetryState, events: Seq<
    TransportEvent,
>) -> (nat, RetryDecision)
    decreases events.len(),
{
    if events.len() == 0 {
        (0, RetryDecision::GiveUp)
    } else {
        let (st2, d) = spec_retry_step(policy, state, events[0]);
        match d {
            RetryDecision::RetryAfter(_) => {
                let (n, end) = spec_retry_run(policy, st2, events.drop_first());
                ((n + 1) as nat, end)
            },
            _ => (1, d),
        }
    }
}

proof fn lemma_transient_run_exhausts(policy: RetryPolicy, state: RetryState, events: Seq<
    TransportEvent,
>)
    requires
        state.attempts_made < policy.max_attempts,
        events.len() >= policy.max_attempts - state.attempts_made,
        forall|i: int| 0 <= i < events.len() ==> spec_class(#[trigger] events[i]) is Transient,
    ensures
        ({
            let (n, end) = spec_retry_run(policy, state, events);
            n == policy.max_attempts - state.attempts_made && end is GiveUp
        }),
    decreases events.len(),
{
    let (st2, d) = spec_retry_step(policy, state, events[0]);
    if st2.attempts_made < policy.max_attempts {
        assert(forall|i: int|
            0 <= i < events.drop_first().len() ==> spec_class(
                #[trigger] events.drop_first()[i],
            ) is Transient);
        lemma_transient_run_exhausts(policy, st2, events.drop_first());
    }
}

/// A transient failure is retried up to the configured attempt bound and
/// then surfaced: on an unbroken run of server-error responses, exactly
/// `max_attempts` attempts are made and the run ends in failure.
pub proof fn lemma_transient_exhausts_attempts(policy: RetryPolicy, events: Seq<TransportEvent>)
    requires
        policy.max_attempts >= 1,
        events.len() >= policy.max_attempts,
        forall|i: int| 0 <= i < events.len() ==> events[i] == TransportEvent::Status(503),
    ensures
        ({
            let (n, end) = spec_retry_run(policy, RetryState { attempts_made: 0 }, events);
            n == policy.max_attempts && end is GiveUp
        }),
{
    assert(forall|i: int| 0 <= i < events.len() ==> spec_class(#[trigger] events[i]) is Transient);
    lemma_transient_run_exhausts(policy, RetryState { attempts_made: 0 }, events);
}

/// A client error is never retried: a run whose first response is a client
/// error makes exactly one attempt and surfaces the failure at once.
pub proof fn lemma_client_error_is_immediate(policy: RetryPolicy, events: Seq<TransportEvent>)
    requires
        events.len() >= 1,
        events[0] == TransportEvent::Status(404),
    ensures
        spec_retry_run(policy, RetryState { attempts_made: 0 }, events) == (
            1nat,
            RetryDecision::GiveUp,
        ),
{
}

} // verus!
