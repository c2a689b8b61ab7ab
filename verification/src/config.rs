//! What the operator of the server has set.

use vstd::prelude::*;

verus! {

/// The settings that delayed events and the event policy depend on.
#[derive(Debug)]
pub struct Config {
    /// The longest delay that a client may ask for; zero turns delayed events
    /// off.
    pub max_event_delay_ms: u64,
    /// How many scheduled events a user may have; zero means any number.
    pub max_delayed_events_per_user: u64,
    /// Whether only administrators may redact.
    pub disable_local_redactions: bool,
    /// Whether encrypted events and rooms are allowed.
    pub allow_encryption: bool,
    /// The name of this server.
    pub server_name: String,
}

} // verus!
