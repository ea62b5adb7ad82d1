//! The orchestrator's decisions: ingesting scraped posts through the dedup
//! store into the stream, planning each consume-loop iteration, and the
//! cooperative-cancellation and startup rules. The loops themselves —
//! timers, blocking reads, signal handling — live outside the library and
//! only act on what these functions decide.

use vstd::prelude::*;

use crate::codec::spec_encode_post;
use crate::post::NewsPost;
use crate::store::{spec_fingerprint, QueueError, ReadError, RedisService};

verus! {

/// Ingests one scraped post: a complete post whose fingerprint is not
/// currently marked is appended to the stream and, when the append went
/// through, its fingerprint is marked seen for the dedup time-to-live.
/// Anything else leaves the store untouched. Returns whether the post was
/// enqueued.
pub fn ingest_post(
    svc: &mut RedisService,
    stream_name: &str,
    post: &NewsPost,
    ttl: u64,
    now: u64,
) -> (r: bool)
    requires
        now + ttl <= u64::MAX,
    ensures
        ({
            let m = old(svc)@;
            if !post.spec_is_complete() {
                final(svc)@ == m && r == false
            } else {
                let key = spec_fingerprint(post@.title->Some_0);
                if m.seen_at(key, now) {
                    final(svc)@ == m && r == false
                } else {
                    let (m1, ok) = m.spec_publish(stream_name@, spec_encode_post(post@));
                    r == ok && final(svc)@ == (if ok {
                        m1.spec_flag(key, ttl, now)
                    } else {
                        m1
                    })
                }
            }
        }),
{
    if !post.is_complete() {
        return false;
    }
    let title = match &post.title {
        Some(t) => t.as_str(),
        None => "",
    };
    if svc.is_post_seen(title, now) {
        return false;
    }
    let ok = svc.publish(stream_name, post);
    if ok {
        svc.mark_post_seen(title, ttl, now);
    }
    ok
}

/// The plan for one consume-loop iteration.
#[derive(Debug, PartialEq, Eq, Structural, Clone, Copy)]
pub struct ConsumeStep {
    /// Hand the post to the active publisher.
    pub publish: bool,
    /// Sleep the pacing interval before the next read.
    pub pace: bool,
}

/// Plans one consume-loop iteration from the read's outcome: a post is
/// published; pacing happens unconditionally — after a publish attempt,
/// success or failure, and after a read error too, so a transient error
/// cannot spin the loop hot.
pub fn plan_consume_step(read: &Result<NewsPost, ReadError>) -> (p: ConsumeStep)
    ensures
        p.publish == read is Ok,
        p.pace,
{
    ConsumeStep { publish: read.is_ok(), pace: true }
}

/// Whether a loop may begin another iteration: exactly until cancellation
/// is requested. In-flight work completes; no new iteration begins.
pub fn should_continue(cancelled: bool) -> (r: bool)
    ensures
        r == !cancelled,
{
    !cancelled
}

/// How startup treats the result of creating the consumer group: any error
/// — the group existing already, or the stream not being there yet — is a
/// warning, and startup proceeds, so restarts are idempotent.
pub fn on_create_group_result(r: &Result<(), QueueError>) -> (warn: bool)
    ensures
        warn == (r is Err),
{
    r.is_err()
}

} // verus!
