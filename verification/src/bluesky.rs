//! The record-and-blob platform's publish flow: building the record for an
//! account, attaching an uploaded thumbnail, and gating every authenticated
//! call on the token's expiry.

use vstd::prelude::*;
use vstd::string::StringExecFns;

use crate::atproto::{rfc3339_utc_of, ATProtoRepoCreateRecord, Blob};
use crate::post::NewsPost;
use crate::token::{Token, TokenError, TOKEN_EXPIRY_MARGIN_SECONDS};

verus! {

/// The outcome of the optional image upload step.
#[derive(Debug)]
pub enum BlobOutcome {
    /// The post carries no image.
    NoImage,
    /// The upload yielded this blob.
    Uploaded(Blob),
    /// The upload failed; the record goes out without a thumbnail.
    Failed,
}

/// Builds the record-creation request for a post on the given account, with
/// the number of warnings the image step produced. The thumbnail is attached
/// exactly when the upload yielded a blob; a failed upload yields a record
/// without a thumbnail and one warning — the text record still goes out.
pub fn bluesky_publish_record(
    post: &NewsPost,
    handle: &str,
    created_at_unix: i64,
    upload: BlobOutcome,
) -> (r: (ATProtoRepoCreateRecord, u32))
    requires
        post.spec_is_complete(),
    ensures
        r.0.repo@ == handle@,
        r.0.collection@ == "app.bsky.feed.post"@,
        r.0.record.text@ == post@.title->Some_0,
        r.0.record.created_at@ == rfc3339_utc_of(created_at_unix),
        (r.0.record.embed matches Some(e) && e.embed_type@ == "app.bsky.embed.external"@
            && e.external.uri@ == post@.link->Some_0 && e.external.title@ == post@.title->Some_0
            && e.external.description@ == post@.summary->Some_0 && e.external.thumb == (
        match upload {
            BlobOutcome::Uploaded(b) => Some(b),
            _ => None::<Blob>,
        })),
        r.1 == (match upload {
            BlobOutcome::Failed => 1u32,
            _ => 0u32,
        }),
{
    let mut record = ATProtoRepoCreateRecord::from_post(post, created_at_unix);
    record.repo = String::from_str(handle);
    match upload {
        BlobOutcome::Uploaded(b) => {
            record.attach_thumb(b);
            (record, 0)
        },
        BlobOutcome::NoImage => (record, 0),
        BlobOutcome::Failed => (record, 1),
    }
}

/// What to do before an authenticated call.
#[derive(Debug, PartialEq, Eq, Structural, Clone, Copy)]
pub enum AuthPlan {
    /// The token is still usable: send the call with it.
    UseCurrent,
    /// The token is expired or within the safety margin: refresh before the
    /// call, and fail the attempt if the refresh fails.
    RefreshFirst,
}

/// Plans one authenticated call: the check runs before every call, not only
/// at session start, since tokens expire across a long-running process. An
/// unreadable token fails the attempt.
pub fn plan_authenticated_call(token: &Token, now: u64) -> (r: Result<AuthPlan, TokenError>)
    requires
        now + TOKEN_EXPIRY_MARGIN_SECONDS <= u64::MAX,
    ensures
        match r {
            Ok(AuthPlan::RefreshFirst) => token.spec_expiry() matches Ok(e) && now
                + TOKEN_EXPIRY_MARGIN_SECONDS >= e,
            Ok(AuthPlan::UseCurrent) => token.spec_expiry() matches Ok(e) && now
                + TOKEN_EXPIRY_MARGIN_SECONDS < e,
            Err(e) => token.spec_expiry() == Err::<u64, TokenError>(e),
        },
{
    match token.is_expired(now) {
        Ok(true) => Ok(AuthPlan::RefreshFirst),
        Ok(false) => Ok(AuthPlan::UseCurrent),
        Err(e) => Err(e),
    }
}

} // verus!
