//! The configuration that actions are run under.

use vstd::prelude::*;

use crate::text::texts;

verus! {

/// A shell command that the configuration allows under a key.
#[derive(Debug, Clone)]
pub struct CommandDef {
    pub command: String,
    pub cwd: Option<String>,
}

/// What the configuration file says of running actions.
#[derive(Debug, Clone)]
pub struct Config {
    /// Prefixes that an outbound URL may begin with.
    pub allowed_base_urls: Vec<String>,
    /// The older name of the same list, still honoured.
    pub allowed_webhook_base_urls: Vec<String>,
    /// The commands that may run, by key.
    pub command_actions: Vec<(String, CommandDef)>,
    /// The directory that a command runs in where nothing else names one.
    pub appdata: String,
    /// The directory under which commands log.
    pub logs_dir: String,
    /// The time limit of a detached run whose action names none.
    pub background_timeout_secs: u64,
    /// How long a stopped run may take to end by itself.
    pub stop_grace_secs: u64,
    /// How many days a run that has ended stays on record.
    pub invocation_ttl_days: i64,
    /// How many bytes of a streamed response are kept.
    pub http_stream_max_buffer_bytes: usize,
    /// How long a streamed response may go without a reader.
    pub http_stream_idle_ttl_secs: u64,
}

impl Config {
    /// Every prefix that an outbound URL may begin with.
    pub open spec fn base_urls(&self) -> Seq<Seq<char>> {
        texts(self.allowed_base_urls@) + texts(self.allowed_webhook_base_urls@)
    }
}

} // verus!
