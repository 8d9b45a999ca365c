//! The FIX initiator client: its configuration and the session it runs. Connecting and
//! running the session over a socket belong to the caller.

use vstd::prelude::*;
use vstd::string::StringExecFns;
use std::time::Duration;
use crate::session::{
    SessionConfig,
    SessionRole,
    SequenceResetPolicy,
    duration_from_secs,
    duration_nanos,
    NANOS_PER_SEC,
};

verus! {

/// Client configuration.
#[derive(Debug, Clone)]
pub struct FixClientConfig {
    pub remote_host: String,
    pub remote_port: u16,
    pub sender_comp_id: String,
    pub target_comp_id: String,
    pub fix_version: String,
    pub heartbeat_interval: Duration,
    pub reconnect_attempts: u32,
}

impl Default for FixClientConfig {
    fn default() -> (c: Self)
        ensures
            c.remote_host@ == "127.0.0.1"@,
            c.remote_port == 9878,
            c.sender_comp_id@.len() == 0,
            c.target_comp_id@.len() == 0,
            c.fix_version@ == "FIX.4.4"@,
            duration_nanos(c.heartbeat_interval) == 30 * NANOS_PER_SEC,
            c.reconnect_attempts == 3,
    {
        FixClientConfig {
            remote_host: String::from_str("127.0.0.1"),
            remote_port: 9878,
            sender_comp_id: String::new(),
            target_comp_id: String::new(),
            fix_version: String::from_str("FIX.4.4"),
            heartbeat_interval: duration_from_secs(30),
            reconnect_attempts: 3,
        }
    }
}

/// High-level FIX initiator client.
pub struct FixClient {
    config: FixClientConfig,
}

/// The session a client runs: an initiator session named `SENDER-TARGET`.
pub open spec fn client_session_is(s: SessionConfig, c: FixClientConfig) -> bool {
    &&& s.session_id@ == c.sender_comp_id@ + "-"@ + c.target_comp_id@
    &&& s.fix_version@ == c.fix_version@
    &&& s.sender_comp_id@ == c.sender_comp_id@
    &&& s.target_comp_id@ == c.target_comp_id@
    &&& s.role == SessionRole::Initiator
    &&& s.heartbeat_interval == c.heartbeat_interval
    &&& duration_nanos(s.reconnect_interval) == NANOS_PER_SEC
    &&& s.max_reconnect_attempts == c.reconnect_attempts
    &&& s.sequence_reset_policy == SequenceResetPolicy::Daily
    &&& s.validate_comp_ids
    &&& s.max_msg_rate == 50_000
}

impl FixClient {
    pub closed spec fn spec_config(&self) -> FixClientConfig {
        self.config
    }

    pub fn new(config: FixClientConfig) -> (c: Self)
        ensures
            c.spec_config() == config,
    {
        FixClient { config }
    }

    /// The configuration.
    pub fn config(&self) -> (c: &FixClientConfig)
        ensures
            *c == self.spec_config(),
    {
        &self.config
    }

    /// The configuration of the session this client runs.
    pub fn session_config(&self) -> (s: SessionConfig)
        ensures
            client_session_is(s, self.spec_config()),
    {
        let mut id = self.config.sender_comp_id.clone();
        id.append("-");
        id.append(self.config.target_comp_id.as_str());
        SessionConfig {
            session_id: id,
            fix_version: self.config.fix_version.clone(),
            sender_comp_id: self.config.sender_comp_id.clone(),
            target_comp_id: self.config.target_comp_id.clone(),
            role: SessionRole::Initiator,
            heartbeat_interval: self.config.heartbeat_interval,
            reconnect_interval: duration_from_secs(1),
            max_reconnect_attempts: self.config.reconnect_attempts,
            sequence_reset_policy: SequenceResetPolicy::Daily,
            validate_comp_ids: true,
            max_msg_rate: 50_000,
        }
    }
}

} // verus!
