//! The platform-publisher abstraction: the publish capability, the errors a
//! publish attempt can surface, and the partial-failure discipline for the
//! status-and-media platform — a failed media upload downgrades to a
//! text-only status with one warning, it never suppresses the post.

use vstd::prelude::*;

use crate::mastodon::{spec_status_text, PostStatusRequest};
use crate::post::NewsPost;

verus! {

/// An error from one publish attempt.
#[derive(Debug, PartialEq, Eq, Structural, Clone, Copy)]
pub enum PublishError {
    /// The platform answered with a status other than success.
    Status(u16),
    /// The bearer token could not be read or refreshed.
    Auth,
}

/// The outcome of the optional media upload step.
#[derive(Debug)]
pub enum MediaOutcome {
    /// The post carries no image.
    NoImage,
    /// The upload yielded this media id.
    Uploaded(String),
    /// The upload failed; the status goes out without media.
    Failed,
}

/// Publisher trait defines the contract for publishing news posts.
pub trait Publisher {
    /// publish_post publishes the NewsPost.
    /// Returns an error if the publishing fails.
    fn publish_post(&mut self, post: NewsPost) -> Result<(), PublishError>;
}

/// Builds the status request for a post, with the number of warnings the
/// media step produced. The media id is attached exactly when the upload
/// succeeded; a failed upload yields a text-only request and one warning,
/// never a suppressed post.
pub fn mastodon_publish_request(post: &NewsPost, media: MediaOutcome) -> (r: (
    PostStatusRequest,
    u32,
))
    requires
        post.spec_is_complete(),
    ensures
        r.0.status@ == spec_status_text(
            post@.title->Some_0,
            post@.summary->Some_0,
            post@.link->Some_0,
        ),
        r.0.language@ == "ro"@,
        r.0.visibility@ == "public"@,
        (match media {
            MediaOutcome::Uploaded(id) => r.0.media_ids@.len() == 1 && r.0.media_ids@[0]@ == id@,
            MediaOutcome::NoImage => r.0.media_ids@.len() == 0,
            MediaOutcome::Failed => r.0.media_ids@.len() == 0,
        }),
        r.1 == (match media {
            MediaOutcome::Failed => 1u32,
            _ => 0u32,
        }),
{
    let mut req = PostStatusRequest::from_post(post);
    match media {
        MediaOutcome::Uploaded(id) => {
            req.media_ids.push(id);
            (req, 0)
        },
        MediaOutcome::NoImage => (req, 0),
        MediaOutcome::Failed => (req, 1),
    }
}

/// Interprets the response status of a publish call: success is exactly the
/// status 200; any other status aborts this attempt with that status, so
/// there is no silent partial success.
pub fn interpret_publish_status(code: u16) -> (r: Result<(), PublishError>)
    ensures
        code == 200 ==> r == Result::<(), PublishError>::Ok(()),
        code != 200 ==> r == Result::<(), PublishError>::Err(PublishError::Status(code)),
{
    if code == 200 {
        Ok(())
    } else {
        Err(PublishError::Status(code))
    }
}

} // verus!
