//! The configuration the publisher process runs with. Parsing the command
//! line happens outside the library; these are the values it hands in.

use vstd::prelude::*;

verus! {

/// Bluesky command arguments.
#[derive(Debug)]
pub struct BlueskyCliArgs {
    /// The Bluesky bot user's handle.
    pub bluesky_handle: String,
    /// The Bluesky bot user's password.
    pub bluesky_password: String,
}

/// Mastodon command arguments.
#[derive(Debug)]
pub struct MastodonCliArgs {
    /// The Mastodon bot's access token.
    pub access_token: String,
}

/// Available Subcommands.
#[derive(Debug)]
pub enum Command {
    /// Command to start bot for the Bluesky platform.
    Bluesky(BlueskyCliArgs),
    /// Command to start bot for the Mastodon platform, also called the
    /// Fediverse.
    Mastodon(MastodonCliArgs),
}

/// The publisher process's configuration.
#[derive(Debug)]
pub struct CliArgs {
    /// Queue store connection string.
    pub redis_connection_string: String,
    /// Stream name.
    pub redis_stream_name: String,
    /// Consumer group name.
    pub redis_consumer_group: String,
    /// The current consumer name.
    pub redis_consumer_name: String,
    /// Represents the time in seconds to pause between posts.
    pub post_pause_time: u64,
    /// Platform.
    pub platform: Command,
}

} // verus!
