//! FIXT 1.1 session: a base session whose BeginString is always "FIXT.1.1", with the
//! application version negotiated at Logon (DefaultApplVerID, tag 1137) and optionally
//! overridden per message (ApplVerID, tag 1128).

use vstd::prelude::*;
use std::time::Instant;
use crate::message::{MessageView, msg_type_of, spec_is_session_level};
use crate::session::{
    Session, SessionAction, SessionConfig, SessionState, check_heartbeat_step,
    check_rate_limit_step, duration_nanos, NANOS_PER_SEC, next_outbound_seq_num_step,
    on_connected_step, on_disconnected_step, on_gap_filled_step, on_logon_step,
    on_logout_sent_step, on_message_received_step, on_message_sent_step,
    on_reconnect_attempt_step, reset_sequences_step, validate_inbound_seq_step,
};

verus! {

/// ApplVerID (tag 1128): the application-level FIX version of one message.
pub const APPL_VER_ID: u32 = 1128;

/// DefaultApplVerID (tag 1137): the session's default application-level FIX version.
pub const DEFAULT_APPL_VER_ID: u32 = 1137;

/// CstmApplVerID (tag 1129): a custom application version identifier.
pub const CSTM_APPL_VER_ID: u32 = 1129;

/// ApplExtID (tag 1156): an application extension identifier.
pub const APPL_EXT_ID: u32 = 1156;

/// The FIXT 1.1 BeginString.
pub const FIXT_BEGIN_STRING: &'static str = "FIXT.1.1";

/// FIX application version identifiers (the values of tags 1128 and 1137).
#[derive(Debug, Clone, Copy, PartialEq, Eq, Structural)]
pub enum ApplVerID {
    Fix27,
    Fix30,
    Fix40,
    Fix41,
    Fix42,
    Fix43,
    Fix44,
    Fix50,
    Fix50SP1,
    Fix50SP2,
}

/// The wire digit of each version: '0' for FIX.2.7 through '9' for FIX.5.0SP2.
pub open spec fn appl_ver_digit(v: ApplVerID) -> u8 {
    match v {
        ApplVerID::Fix27 => 48,
        ApplVerID::Fix30 => 49,
        ApplVerID::Fix40 => 50,
        ApplVerID::Fix41 => 51,
        ApplVerID::Fix42 => 52,
        ApplVerID::Fix43 => 53,
        ApplVerID::Fix44 => 54,
        ApplVerID::Fix50 => 55,
        ApplVerID::Fix50SP1 => 56,
        ApplVerID::Fix50SP2 => 57,
    }
}

/// The version a wire value names: a single digit, '0' through '9'.
pub open spec fn appl_ver_of(s: Seq<u8>) -> Option<ApplVerID> {
    if s.len() != 1 {
        None
    } else if s[0] == 48 {
        Some(ApplVerID::Fix27)
    } else if s[0] == 49 {
        Some(ApplVerID::Fix30)
    } else if s[0] == 50 {
        Some(ApplVerID::Fix40)
    } else if s[0] == 51 {
        Some(ApplVerID::Fix41)
    } else if s[0] == 52 {
        Some(ApplVerID::Fix42)
    } else if s[0] == 53 {
        Some(ApplVerID::Fix43)
    } else if s[0] == 54 {
        Some(ApplVerID::Fix44)
    } else if s[0] == 55 {
        Some(ApplVerID::Fix50)
    } else if s[0] == 56 {
        Some(ApplVerID::Fix50SP1)
    } else if s[0] == 57 {
        Some(ApplVerID::Fix50SP2)
    } else {
        None
    }
}

/// The human-readable FIX version of each version identifier.
pub open spec fn fix_version_text(v: ApplVerID) -> Seq<char> {
    match v {
        ApplVerID::Fix27 => "FIX.2.7"@,
        ApplVerID::Fix30 => "FIX.3.0"@,
        ApplVerID::Fix40 => "FIX.4.0"@,
        ApplVerID::Fix41 => "FIX.4.1"@,
        ApplVerID::Fix42 => "FIX.4.2"@,
        ApplVerID::Fix43 => "FIX.4.3"@,
        ApplVerID::Fix44 => "FIX.4.4"@,
        ApplVerID::Fix50 => "FIX.5.0"@,
        ApplVerID::Fix50SP1 => "FIX.5.0SP1"@,
        ApplVerID::Fix50SP2 => "FIX.5.0SP2"@,
    }
}

impl ApplVerID {
    /// Parse a version from its wire value.
    pub fn from_bytes(bytes: &[u8]) -> (r: Option<ApplVerID>)
        ensures
            r == appl_ver_of(bytes@),
    {
        if bytes.len() != 1 {
            return None;
        }
        match bytes[0] {
            48 => Some(ApplVerID::Fix27),
            49 => Some(ApplVerID::Fix30),
            50 => Some(ApplVerID::Fix40),
            51 => Some(ApplVerID::Fix41),
            52 => Some(ApplVerID::Fix42),
            53 => Some(ApplVerID::Fix43),
            54 => Some(ApplVerID::Fix44),
            55 => Some(ApplVerID::Fix50),
            56 => Some(ApplVerID::Fix50SP1),
            57 => Some(ApplVerID::Fix50SP2),
            _ => None,
        }
    }

    /// The wire value.
    pub fn as_bytes(&self) -> (r: &'static [u8])
        ensures
            r@ == seq![appl_ver_digit(*self)],
    {
        let r: &'static [u8] = match self {
            ApplVerID::Fix27 => &[48u8],
            ApplVerID::Fix30 => &[49u8],
            ApplVerID::Fix40 => &[50u8],
            ApplVerID::Fix41 => &[51u8],
            ApplVerID::Fix42 => &[52u8],
            ApplVerID::Fix43 => &[53u8],
            ApplVerID::Fix44 => &[54u8],
            ApplVerID::Fix50 => &[55u8],
            ApplVerID::Fix50SP1 => &[56u8],
            ApplVerID::Fix50SP2 => &[57u8],
        };
        assert(r@ =~= seq![appl_ver_digit(*self)]);
        r
    }

    /// The human-readable FIX version (e.g. "FIX.5.0SP2").
    pub fn as_fix_version_str(&self) -> (r: &'static str)
        ensures
            r@ == fix_version_text(*self),
    {
        match self {
            ApplVerID::Fix27 => "FIX.2.7",
            ApplVerID::Fix30 => "FIX.3.0",
            ApplVerID::Fix40 => "FIX.4.0",
            ApplVerID::Fix41 => "FIX.4.1",
            ApplVerID::Fix42 => "FIX.4.2",
            ApplVerID::Fix43 => "FIX.4.3",
            ApplVerID::Fix44 => "FIX.4.4",
            ApplVerID::Fix50 => "FIX.5.0",
            ApplVerID::Fix50SP1 => "FIX.5.0SP1",
            ApplVerID::Fix50SP2 => "FIX.5.0SP2",
        }
    }
}

/// Reading back a version's wire value gives the version.
pub proof fn lemma_appl_ver_roundtrip(v: ApplVerID)
    ensures
        appl_ver_of(seq![appl_ver_digit(v)]) == Some(v),
{
}

/// The FIX ApplVerID code table (tag 1128): the code `'0' + i` names the `i`-th version.
pub open spec fn appl_ver_code_table() -> Seq<Seq<char>> {
    seq![
        "FIX.2.7"@,
        "FIX.3.0"@,
        "FIX.4.0"@,
        "FIX.4.1"@,
        "FIX.4.2"@,
        "FIX.4.3"@,
        "FIX.4.4"@,
        "FIX.5.0"@,
        "FIX.5.0SP1"@,
        "FIX.5.0SP2"@,
    ]
}

/// ApplVerID codes follow the FIX code table: a one-byte value names a version exactly when
/// it is a digit, and the version it names (and the one each version is written as) is the
/// table's entry at that digit.
pub proof fn lemma_appl_ver_codes(d: u8, v: ApplVerID)
    ensures
        appl_ver_of(seq![d]) is Some <==> 48 <= d <= 57,
        appl_ver_of(seq![d]) matches Some(w) ==> fix_version_text(w) == appl_ver_code_table()[d - 48],
        48 <= appl_ver_digit(v) <= 57,
        fix_version_text(v) == appl_ver_code_table()[appl_ver_digit(v) - 48],
{
}

/// FIXT 1.1 session configuration: a base session configuration, the default
/// application version and the versions accepted.
pub struct FixtSessionConfig {
    pub base: SessionConfig,
    pub default_appl_ver_id: ApplVerID,
    pub supported_versions: Vec<ApplVerID>,
}

/// A field to add to an outbound Logon.
#[derive(Debug, Clone, PartialEq, Eq)]
pub struct LogonField {
    pub tag: u32,
    pub value: Vec<u8>,
}

/// Errors of FIXT version validation.
#[derive(Debug, Clone, PartialEq, Eq)]
pub enum FixtError {
    MissingDefaultApplVerID,
    UnsupportedApplVerID(Vec<u8>),
    InvalidApplVerID(Vec<u8>),
    MissingApplVerID,
}

/// Whether `v` is among `vs`.
fn contains_version(vs: &Vec<ApplVerID>, v: ApplVerID) -> (b: bool)
    ensures
        b == vs@.contains(v),
{
    let n = vs.len();
    let mut i: usize = 0;
    while i < n
        invariant
            n == vs@.len(),
            i <= n,
            forall|j: int| 0 <= j < i ==> vs@[j] != v,
        decreases n - i,
    {
        if vs[i] == v {
            assert(vs@[i as int] == v);
            return true;
        }
        i = i + 1;
    }
    false
}

/// FIXT 1.1 session: a base session plus version negotiation.
pub struct FixtSession {
    base: Session,
    config: FixtSessionConfig,
    negotiated_version: Option<ApplVerID>,
}

impl FixtSession {
    /// The base session.
    pub closed spec fn spec_base(&self) -> Session {
        self.base
    }

    /// The versions this session accepts.
    pub closed spec fn spec_supported(&self) -> Seq<ApplVerID> {
        self.config.supported_versions@
    }

    /// The default application version.
    pub closed spec fn spec_default(&self) -> ApplVerID {
        self.config.default_appl_ver_id
    }

    /// The version negotiated at Logon, if any.
    pub closed spec fn spec_negotiated(&self) -> Option<ApplVerID> {
        self.negotiated_version
    }

    /// A FIXT session: the base configuration's FIX version is set to "FIXT.1.1" and
    /// the default version is added to the supported ones when missing.
    pub fn new(config: FixtSessionConfig) -> (s: Self)
        ensures
            s.spec_base().spec_config().fix_version@ == FIXT_BEGIN_STRING@,
            s.spec_base().spec_config().session_id == config.base.session_id,
            s.spec_base().spec_config().sender_comp_id == config.base.sender_comp_id,
            s.spec_base().spec_config().target_comp_id == config.base.target_comp_id,
            s.spec_base().spec_config().role == config.base.role,
            s.spec_base().spec_config().heartbeat_interval == config.base.heartbeat_interval,
            s.spec_base().spec_config().max_reconnect_attempts == config.base.max_reconnect_attempts,
            s.spec_base().spec_config().max_msg_rate == config.base.max_msg_rate,
            s.spec_base().spec_state() == SessionState::Disconnected,
            s.spec_base().spec_outbound() == 1,
            s.spec_base().spec_inbound() == 1,
            !s.spec_base().spec_test_request_pending(),
            s.spec_base().spec_reconnect_attempts() == 0,
            s.spec_base().spec_msg_count() == 0,
            s.spec_default() == config.default_appl_ver_id,
            s.spec_supported() == if config.supported_versions@.contains(config.default_appl_ver_id) {
                config.supported_versions@
            } else {
                config.supported_versions@.push(config.default_appl_ver_id)
            },
            s.spec_negotiated() is None,
    {
        let FixtSessionConfig { base, default_appl_ver_id, supported_versions } = config;
        let mut base = base;
        base.fix_version = FIXT_BEGIN_STRING.to_owned();
        let mut supported_versions = supported_versions;
        if !contains_version(&supported_versions, default_appl_ver_id) {
            supported_versions.push(default_appl_ver_id);
        }
        let session = Session::new(base.clone());
        FixtSession {
            base: session,
            config: FixtSessionConfig { base, default_appl_ver_id, supported_versions },
            negotiated_version: None,
        }
    }

    /// This is a FIXT session.
    pub fn is_fixt(&self) -> (b: bool)
        ensures
            b,
    {
        true
    }

    /// The negotiated application version, once Logon has completed.
    pub fn negotiated_version(&self) -> (v: Option<ApplVerID>)
        ensures
            v == self.spec_negotiated(),
    {
        self.negotiated_version
    }

    /// Process an inbound Logon: its DefaultApplVerID must be present, name a version,
    /// and be supported; then that version is negotiated and the base session logs on.
    /// On an error nothing changes.
    pub fn on_logon_received(&mut self, msg: &MessageView<'_>) -> (r: Result<(), FixtError>)
        ensures
            match msg.spec_get_field(DEFAULT_APPL_VER_ID) {
                None => r == Err::<(), FixtError>(FixtError::MissingDefaultApplVerID)
                    && *final(self) == *old(self),
                Some(v) => match appl_ver_of(v) {
                    None => (r matches Err(FixtError::InvalidApplVerID(b)) && b@ == v) && *final(self)
                        == *old(self),
                    Some(ver) => if old(self).spec_supported().contains(ver) {
                        &&& r is Ok
                        &&& final(self).spec_negotiated() == Some(ver)
                        &&& on_logon_step(old(self).spec_base(), final(self).spec_base())
                        &&& final(self).spec_supported() == old(self).spec_supported()
                        &&& final(self).spec_default() == old(self).spec_default()
                    } else {
                        (r matches Err(FixtError::UnsupportedApplVerID(b)) && b@ == v) && *final(self)
                            == *old(self)
                    },
                },
            },
    {
        let ver_bytes = match msg.get_field(DEFAULT_APPL_VER_ID) {
            Some(b) => b,
            None => {
                return Err(FixtError::MissingDefaultApplVerID);
            },
        };
        let ver = match ApplVerID::from_bytes(ver_bytes) {
            Some(v) => v,
            None => {
                return Err(FixtError::InvalidApplVerID(vstd::slice::slice_to_vec(ver_bytes)));
            },
        };
        if !contains_version(&self.config.supported_versions, ver) {
            return Err(FixtError::UnsupportedApplVerID(vstd::slice::slice_to_vec(ver_bytes)));
        }
        self.negotiated_version = Some(ver);
        self.base.on_logon();
        Ok(())
    }

    /// The FIXT fields of an outbound Logon: DefaultApplVerID with the default version.
    pub fn build_logon_fields(&self) -> (fields: Vec<LogonField>)
        ensures
            fields@.len() == 1,
            fields@[0].tag == DEFAULT_APPL_VER_ID,
            fields@[0].value@ == seq![appl_ver_digit(self.spec_default())],
    {
        let value = vstd::slice::slice_to_vec(self.config.default_appl_ver_id.as_bytes());
        let mut fields: Vec<LogonField> = Vec::new();
        fields.push(LogonField { tag: DEFAULT_APPL_VER_ID, value });
        fields
    }

    /// The application version of an inbound message. Session-level messages carry none:
    /// they get the negotiated version, or the default one before negotiation. Other
    /// messages use their ApplVerID, which must name a supported version, or else the
    /// negotiated version (`MissingApplVerID` before negotiation).
    pub fn validate_appl_ver(&self, msg: &MessageView<'_>) -> (r: Result<ApplVerID, FixtError>)
        ensures
            (msg.spec_msg_type() matches Some(t) && spec_is_session_level(msg_type_of(t))) ==> r
                == Ok::<ApplVerID, FixtError>(
                match self.spec_negotiated() {
                    Some(v) => v,
                    None => self.spec_default(),
                },
            ),
            !(msg.spec_msg_type() matches Some(t) && spec_is_session_level(msg_type_of(t))) ==> match msg.spec_get_field(APPL_VER_ID) {
                Some(v) => match appl_ver_of(v) {
                    None => r matches Err(FixtError::InvalidApplVerID(b)) && b@ == v,
                    Some(ver) => if self.spec_supported().contains(ver) {
                        r == Ok::<ApplVerID, FixtError>(ver)
                    } else {
                        r matches Err(FixtError::UnsupportedApplVerID(b)) && b@ == v
                    },
                },
                None => match self.spec_negotiated() {
                    Some(v) => r == Ok::<ApplVerID, FixtError>(v),
                    None => r == Err::<ApplVerID, FixtError>(FixtError::MissingApplVerID),
                },
            },
    {
        if let Some(mt) = msg.msg_type_enum() {
            if mt.is_session_level() {
                return Ok(
                    match self.negotiated_version {
                        Some(v) => v,
                        None => self.config.default_appl_ver_id,
                    },
                );
            }
        }
        match msg.get_field(APPL_VER_ID) {
            Some(ver_bytes) => {
                let ver = match ApplVerID::from_bytes(ver_bytes) {
                    Some(v) => v,
                    None => {
                        return Err(FixtError::InvalidApplVerID(vstd::slice::slice_to_vec(ver_bytes)));
                    },
                };
                if !contains_version(&self.config.supported_versions, ver) {
                    return Err(FixtError::UnsupportedApplVerID(vstd::slice::slice_to_vec(ver_bytes)));
                }
                Ok(ver)
            },
            None => match self.negotiated_version {
                Some(v) => Ok(v),
                None => Err(FixtError::MissingApplVerID),
            },
        }
    }

    /// The base session's state.
    pub fn state(&self) -> (s: SessionState)
        ensures
            s == self.spec_base().spec_state(),
    {
        self.base.state()
    }

    /// The base session's configuration.
    pub fn config(&self) -> (c: &SessionConfig)
        ensures
            *c == self.spec_base().spec_config(),
    {
        self.base.config()
    }

    /// The transport connected (see `Session::on_connected`).
    pub fn on_connected(&mut self)
        ensures
            on_connected_step(old(self).spec_base(), final(self).spec_base()),
            final(self).spec_negotiated() == old(self).spec_negotiated(),
            final(self).spec_supported() == old(self).spec_supported(),
            final(self).spec_default() == old(self).spec_default(),
    {
        self.base.on_connected();
    }

    /// Logon completed without FIXT negotiation (see `on_logon_received`).
    pub fn on_logon(&mut self)
        ensures
            on_logon_step(old(self).spec_base(), final(self).spec_base()),
            final(self).spec_negotiated() == old(self).spec_negotiated(),
            final(self).spec_supported() == old(self).spec_supported(),
            final(self).spec_default() == old(self).spec_default(),
    {
        self.base.on_logon();
    }

    /// Check an inbound sequence number (see `Session::validate_inbound_seq`).
    pub fn validate_inbound_seq(&mut self, received_seq: u64) -> (r: Result<(), (u64, u64)>)
        ensures
            validate_inbound_seq_step(old(self).spec_base(), final(self).spec_base(), received_seq, r),
            final(self).spec_negotiated() == old(self).spec_negotiated(),
            final(self).spec_supported() == old(self).spec_supported(),
            final(self).spec_default() == old(self).spec_default(),
    {
        self.base.validate_inbound_seq(received_seq)
    }

    /// The gap was filled (see `Session::on_gap_filled`).
    pub fn on_gap_filled(&mut self, new_seq: u64)
        ensures
            on_gap_filled_step(old(self).spec_base(), final(self).spec_base(), new_seq),
            final(self).spec_negotiated() == old(self).spec_negotiated(),
            final(self).spec_supported() == old(self).spec_supported(),
            final(self).spec_default() == old(self).spec_default(),
    {
        self.base.on_gap_filled(new_seq);
    }

    /// A Logout was sent.
    pub fn on_logout_sent(&mut self)
        ensures
            on_logout_sent_step(old(self).spec_base(), final(self).spec_base()),
            final(self).spec_negotiated() == old(self).spec_negotiated(),
            final(self).spec_supported() == old(self).spec_supported(),
            final(self).spec_default() == old(self).spec_default(),
    {
        self.base.on_logout_sent();
    }

    /// The transport disconnected: the negotiated version is forgotten too.
    pub fn on_disconnected(&mut self)
        ensures
            on_disconnected_step(old(self).spec_base(), final(self).spec_base()),
            final(self).spec_negotiated() is None,
            final(self).spec_supported() == old(self).spec_supported(),
            final(self).spec_default() == old(self).spec_default(),
    {
        self.base.on_disconnected();
        self.negotiated_version = None;
    }

    /// Heartbeat check (see `Session::check_heartbeat`).
    pub fn check_heartbeat(&mut self, now: Instant) -> (a: SessionAction)
        requires
            old(self).spec_base().spec_state() == SessionState::Active ==> duration_nanos(
                old(self).spec_base().spec_config().heartbeat_interval,
            ) / NANOS_PER_SEC + 5 <= u64::MAX,
        ensures
            check_heartbeat_step(old(self).spec_base(), final(self).spec_base(), now, a),
            final(self).spec_negotiated() == old(self).spec_negotiated(),
            final(self).spec_supported() == old(self).spec_supported(),
            final(self).spec_default() == old(self).spec_default(),
    {
        self.base.check_heartbeat(now)
    }

    /// A message was sent.
    pub fn on_message_sent(&mut self)
        ensures
            on_message_sent_step(old(self).spec_base(), final(self).spec_base()),
            final(self).spec_negotiated() == old(self).spec_negotiated(),
            final(self).spec_supported() == old(self).spec_supported(),
            final(self).spec_default() == old(self).spec_default(),
    {
        self.base.on_message_sent();
    }

    /// A message was received.
    pub fn on_message_received(&mut self)
        ensures
            on_message_received_step(old(self).spec_base(), final(self).spec_base()),
            final(self).spec_negotiated() == old(self).spec_negotiated(),
            final(self).spec_supported() == old(self).spec_supported(),
            final(self).spec_default() == old(self).spec_default(),
    {
        self.base.on_message_received();
    }

    /// Whether to reconnect (see `Session::should_reconnect`).
    pub fn should_reconnect(&self) -> (b: bool)
        ensures
            b == (self.spec_base().spec_state() == SessionState::Disconnected
                && self.spec_base().spec_config().role == crate::session::SessionRole::Initiator
                && (self.spec_base().spec_config().max_reconnect_attempts == 0
                || self.spec_base().spec_reconnect_attempts()
                < self.spec_base().spec_config().max_reconnect_attempts)),
    {
        self.base.should_reconnect()
    }

    /// Count a reconnect attempt.
    pub fn on_reconnect_attempt(&mut self)
        ensures
            on_reconnect_attempt_step(old(self).spec_base(), final(self).spec_base()),
            final(self).spec_negotiated() == old(self).spec_negotiated(),
            final(self).spec_supported() == old(self).spec_supported(),
            final(self).spec_default() == old(self).spec_default(),
    {
        self.base.on_reconnect_attempt();
    }

    /// Reset both sequence numbers to 1.
    pub fn reset_sequences(&mut self)
        ensures
            reset_sequences_step(old(self).spec_base(), final(self).spec_base()),
            final(self).spec_negotiated() == old(self).spec_negotiated(),
            final(self).spec_supported() == old(self).spec_supported(),
            final(self).spec_default() == old(self).spec_default(),
    {
        self.base.reset_sequences();
    }

    /// Take the next outbound sequence number.
    pub fn next_outbound_seq_num(&mut self) -> (seq: u64)
        ensures
            next_outbound_seq_num_step(old(self).spec_base(), final(self).spec_base(), seq),
            final(self).spec_negotiated() == old(self).spec_negotiated(),
            final(self).spec_supported() == old(self).spec_supported(),
            final(self).spec_default() == old(self).spec_default(),
    {
        self.base.next_outbound_seq_num()
    }

    /// The expected inbound sequence number.
    pub fn expected_inbound_seq_num(&self) -> (n: u64)
        ensures
            n == self.spec_base().spec_inbound(),
    {
        self.base.expected_inbound_seq_num()
    }

    /// The next outbound sequence number, without taking it.
    pub fn current_outbound_seq_num(&self) -> (n: u64)
        ensures
            n == self.spec_base().spec_outbound(),
    {
        self.base.current_outbound_seq_num()
    }

    /// Count a message against the rate limit.
    pub fn check_rate_limit(&mut self) -> (allowed: bool)
        ensures
            check_rate_limit_step(old(self).spec_base(), final(self).spec_base(), allowed),
            final(self).spec_negotiated() == old(self).spec_negotiated(),
            final(self).spec_supported() == old(self).spec_supported(),
            final(self).spec_default() == old(self).spec_default(),
    {
        self.base.check_rate_limit()
    }
}

} // verus!
