//! A small news-distribution pipeline: scraped news posts are deduplicated,
//! buffered in an append-only stream with consumer groups, and drained into a
//! social platform publisher with token refresh, bounded retry and pacing.

use vstd::prelude::*;

pub mod atproto;
pub mod bluesky;
pub mod json;
pub mod mastodon;
pub mod orchestrate;
pub mod post;
pub mod publish;
pub mod retry;
pub mod scrape;
pub mod cli;
pub mod codec;
pub mod store;
pub mod text;
pub mod token;
pub mod util;

verus! {

} // verus!
