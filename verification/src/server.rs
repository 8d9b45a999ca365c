//! The FIX acceptor server: its configuration, the check of the first message of a
//! connection (it must be a Logon naming its SenderCompID), and the session an accepted
//! connection runs. Listening, reading and the per-connection threads belong to the caller.

use vstd::prelude::*;
use vstd::utf8::{valid_utf8, decode_utf8, encode_utf8_decode_utf8};
use vstd::string::StringExecFns;
use std::time::Duration;
use crate::acceptor::{acceptor_session_id, dec_text};
use crate::message::{entry_value, lookup_value, FieldEntry};
use crate::parser::{FixParser, ParseError, first_boundary, recorded, msg_type_idx_of};
use crate::session::{
    SessionConfig,
    SessionRole,
    SequenceResetPolicy,
    duration_from_secs,
    duration_nanos,
    NANOS_PER_SEC,
};
use crate::tags;

verus! {

/// Server configuration.
#[derive(Debug, Clone)]
pub struct FixServerConfig {
    pub bind_address: String,
    pub port: u16,
    pub sender_comp_id: String,
    pub fix_version: String,
    pub heartbeat_interval: Duration,
    pub allowed_comp_ids: Vec<String>,
    pub max_connections: usize,
    pub connection_pool_size: usize,
}

impl Default for FixServerConfig {
    fn default() -> (c: Self)
        ensures
            c.bind_address@ == "0.0.0.0"@,
            c.port == 9878,
            c.sender_comp_id@ == "VELOCITAS"@,
            c.fix_version@ == "FIX.4.4"@,
            duration_nanos(c.heartbeat_interval) == 30 * NANOS_PER_SEC,
            c.allowed_comp_ids@.len() == 0,
            c.max_connections == 256,
            c.connection_pool_size == 64,
    {
        FixServerConfig {
            bind_address: String::from_str("0.0.0.0"),
            port: 9878,
            sender_comp_id: String::from_str("VELOCITAS"),
            fix_version: String::from_str("FIX.4.4"),
            heartbeat_interval: duration_from_secs(30),
            allowed_comp_ids: Vec::new(),
            max_connections: 256,
            connection_pool_size: 64,
        }
    }
}

/// High-level FIX acceptor server.
pub struct FixServer {
    config: FixServerConfig,
}

impl FixServer {
    pub closed spec fn spec_config(&self) -> FixServerConfig {
        self.config
    }

    pub fn new(config: FixServerConfig) -> (s: Self)
        ensures
            s.spec_config() == config,
    {
        FixServer { config }
    }

    /// The configuration.
    pub fn config(&self) -> (c: &FixServerConfig)
        ensures
            *c == self.spec_config(),
    {
        &self.config
    }
}

/// Why the first message of a connection is refused.
#[derive(Debug, Clone, PartialEq, Eq)]
pub enum LogonRejection {
    /// It does not parse.
    Parse(ParseError),
    /// It has no MsgType.
    NoMsgType,
    /// It is not a Logon: its MsgType.
    NotLogon(Vec<u8>),
    /// It names no SenderCompID (or not as UTF-8 text).
    NoSenderCompId,
}

/// The outcome of checking the bytes received so far on a new connection.
#[derive(Debug, Clone, PartialEq, Eq)]
pub enum LogonCheck {
    /// No complete message yet.
    Incomplete,
    /// A Logon from `comp_id`, ending at `end`.
    Logon { end: usize, comp_id: String },
    /// The first message is refused.
    Rejected(LogonRejection),
}

/// The MsgType of a parsed message: the entry at the recorded index when it is a MsgType
/// entry, otherwise the first MsgType entry.
pub open spec fn msg_type_in(buf: Seq<u8>, fields: Seq<FieldEntry>, idx: nat) -> Option<Seq<u8>> {
    if idx < fields.len() && fields[idx as int].tag == tags::MSG_TYPE {
        Some(entry_value(buf, fields[idx as int]))
    } else {
        lookup_value(buf, fields, tags::MSG_TYPE)
    }
}

/// What the check of the first message gives for the bytes `data` received so far.
pub open spec fn logon_check_is(p: FixParser, data: Seq<u8>, r: LogonCheck) -> bool {
    match first_boundary(data, 0) {
        None => r is Incomplete,
        Some(b) => {
            let msg = data.take(b);
            match p.spec_parse(msg) {
                Err(e) => r == LogonCheck::Rejected(LogonRejection::Parse(e)),
                Ok(scan) => {
                    let fields = recorded(scan.0);
                    match msg_type_in(msg, fields, msg_type_idx_of(scan.0)) {
                        None => r == LogonCheck::Rejected(LogonRejection::NoMsgType),
                        Some(t) => if t != seq![65u8] {
                            r matches LogonCheck::Rejected(LogonRejection::NotLogon(v)) && v@ == t
                        } else {
                            match lookup_value(msg, fields, tags::SENDER_COMP_ID) {
                                Some(v) => if valid_utf8(v) {
                                    r matches LogonCheck::Logon { end, comp_id } && end == b
                                        && comp_id@ == decode_utf8(v)
                                } else {
                                    r == LogonCheck::Rejected(LogonRejection::NoSenderCompId)
                                },
                                None => r == LogonCheck::Rejected(LogonRejection::NoSenderCompId),
                            }
                        },
                    }
                },
            }
        },
    }
}

/// Check the bytes received so far on a new connection: once a whole message is there,
/// it must parse, be a Logon, and name its SenderCompID.
pub fn check_logon(parser: &FixParser, data: &[u8]) -> (r: LogonCheck)
    ensures
        logon_check_is(*parser, data@, r),
{
    let boundary = match parser.find_message_boundary(data) {
        Some(b) => b,
        None => return LogonCheck::Incomplete,
    };
    proof {
        crate::parser::lemma_first_boundary_bound(data@, 0);
    }
    let msg = vstd::slice::slice_subrange(data, 0, boundary);
    assert(msg@ =~= data@.take(boundary as int));
    let view = match parser.parse(msg) {
        Ok((v, _)) => v,
        Err(e) => return LogonCheck::Rejected(LogonRejection::Parse(e)),
    };
    let msg_type = match view.msg_type() {
        Some(t) => t,
        None => return LogonCheck::Rejected(LogonRejection::NoMsgType),
    };
    if !(msg_type.len() == 1 && msg_type[0] == 65) {
        proof {
            if msg_type@ == seq![65u8] {
                assert(msg_type@[0] == 65u8);
            }
        }
        return LogonCheck::Rejected(LogonRejection::NotLogon(vstd::slice::slice_to_vec(msg_type)));
    }
    assert(msg_type@ =~= seq![65u8]);
    match view.sender_comp_id() {
        Some(s) => {
            proof {
                encode_utf8_decode_utf8(s@);
            }
            LogonCheck::Logon { end: boundary, comp_id: String::from_str(s) }
        },
        None => LogonCheck::Rejected(LogonRejection::NoSenderCompId),
    }
}

/// The session an accepted connection runs: an acceptor session named after the
/// connection id, towards the CompID that logged on.
pub open spec fn acceptor_session_is(
    s: SessionConfig,
    config: FixServerConfig,
    conn_id: u64,
    comp_id: Seq<char>,
) -> bool {
    &&& s.session_id@ == "ACC-"@ + dec_text(conn_id)
    &&& s.fix_version@ == config.fix_version@
    &&& s.sender_comp_id@ == config.sender_comp_id@
    &&& s.target_comp_id@ == comp_id
    &&& s.role == SessionRole::Acceptor
    &&& s.heartbeat_interval == config.heartbeat_interval
    &&& duration_nanos(s.reconnect_interval) == 0
    &&& s.max_reconnect_attempts == 0
    &&& s.sequence_reset_policy == SequenceResetPolicy::Daily
    &&& s.validate_comp_ids
    &&& s.max_msg_rate == 50_000
}

/// The session configuration for an accepted connection.
pub fn acceptor_session_config(config: &FixServerConfig, conn_id: u64, comp_id: &str) -> (s: SessionConfig)
    ensures
        acceptor_session_is(s, *config, conn_id, comp_id@),
{
    SessionConfig {
        session_id: acceptor_session_id(conn_id),
        fix_version: config.fix_version.clone(),
        sender_comp_id: config.sender_comp_id.clone(),
        target_comp_id: String::from_str(comp_id),
        role: SessionRole::Acceptor,
        heartbeat_interval: config.heartbeat_interval,
        reconnect_interval: duration_from_secs(0),
        max_reconnect_attempts: 0,
        sequence_reset_policy: SequenceResetPolicy::Daily,
        validate_comp_ids: true,
        max_msg_rate: 50_000,
    }
}

} // verus!
