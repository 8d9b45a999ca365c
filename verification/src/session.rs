//! FIX session state machine: lifecycle (connect, logon, logout, reconnect), sequence
//! numbers with gap detection, heartbeat timing and a per-second message rate limit.

use vstd::prelude::*;
use std::time::{Duration, Instant};

verus! {

#[verifier::external_type_specification]
#[verifier::external_body]
pub struct ExInstant(Instant);

/// The length of a `Duration` in whole nanoseconds (what `Duration::as_nanos` returns).
pub uninterp spec fn duration_nanos(d: Duration) -> u128;

/// One second, in nanoseconds.
pub const NANOS_PER_SEC: u128 = 1_000_000_000;

/// `Duration` is `Copy`: its `clone` returns the same duration.
pub assume_specification[ <Duration as Clone>::clone ](d: &Duration) -> (r: Duration)
    ensures
        r == *d,
;

/// The current time, from `Instant::now`. Nothing is stated of it: it is the clock's.
#[verifier::external_body]
fn instant_now() -> Instant {
    Instant::now()
}

/// The time from `earlier` to `later` (what `Instant::duration_since` returns: zero when
/// `earlier` is the later one).
pub uninterp spec fn elapsed_between(later: Instant, earlier: Instant) -> Duration;

/// `later.duration_since(earlier)`: the time between two instants, a function of the two.
#[verifier::external_body]
fn duration_since(later: &Instant, earlier: &Instant) -> (d: Duration)
    ensures
        d == elapsed_between(*later, *earlier),
{
    later.duration_since(*earlier)
}

/// `Duration::as_nanos`: the duration in whole nanoseconds. A `Duration` holds at most
/// `u64::MAX` seconds plus less than one second, which bounds the result.
#[verifier::external_body]
pub(crate) fn as_nanos(d: &Duration) -> (n: u128)
    ensures
        n == duration_nanos(*d),
        n < 18446744073709551616u128 * NANOS_PER_SEC,
{
    d.as_nanos()
}

/// `Duration::from_secs`: a duration of `secs` whole seconds.
#[verifier::external_body]
pub(crate) fn duration_from_secs(secs: u64) -> (d: Duration)
    ensures
        duration_nanos(d) == secs as u128 * NANOS_PER_SEC,
{
    Duration::from_secs(secs)
}

/// Session state machine states.
#[derive(Debug, Clone, Copy, PartialEq, Eq, Structural)]
pub enum SessionState {
    Disconnected,
    Connecting,
    LogonSent,
    Active,
    Resending,
    LogoutSent,
}

/// Session role.
#[derive(Debug, Clone, Copy, PartialEq, Eq, Structural)]
pub enum SessionRole {
    Initiator,
    Acceptor,
}

/// Sequence number reset policy.
#[derive(Debug, Clone, Copy, PartialEq, Eq, Structural)]
pub enum SequenceResetPolicy {
    Always,
    Daily,
    Weekly,
    Never,
}

/// Session configuration.
#[derive(Debug)]
pub struct SessionConfig {
    pub session_id: String,
    pub fix_version: String,
    pub sender_comp_id: String,
    pub target_comp_id: String,
    pub role: SessionRole,
    pub heartbeat_interval: Duration,
    pub reconnect_interval: Duration,
    pub max_reconnect_attempts: u32,
    pub sequence_reset_policy: SequenceResetPolicy,
    pub validate_comp_ids: bool,
    pub max_msg_rate: u32,
}

impl Clone for SessionConfig {
    fn clone(&self) -> (c: Self)
        ensures
            c == *self,
    {
        SessionConfig {
            session_id: self.session_id.clone(),
            fix_version: self.fix_version.clone(),
            sender_comp_id: self.sender_comp_id.clone(),
            target_comp_id: self.target_comp_id.clone(),
            role: self.role,
            heartbeat_interval: self.heartbeat_interval.clone(),
            reconnect_interval: self.reconnect_interval.clone(),
            max_reconnect_attempts: self.max_reconnect_attempts,
            sequence_reset_policy: self.sequence_reset_policy,
            validate_comp_ids: self.validate_comp_ids,
            max_msg_rate: self.max_msg_rate,
        }
    }
}

impl Default for SessionConfig {
    /// FIX.4.4, initiator, 30 s heartbeats, 1 s reconnect interval, unlimited reconnects,
    /// daily sequence reset, CompID validation, 50 000 messages per second.
    fn default() -> (c: Self)
        ensures
            c.session_id@ == Seq::<char>::empty(),
            c.fix_version@ == "FIX.4.4"@,
            c.sender_comp_id@ == Seq::<char>::empty(),
            c.target_comp_id@ == Seq::<char>::empty(),
            c.role == SessionRole::Initiator,
            duration_nanos(c.heartbeat_interval) == 30 * NANOS_PER_SEC,
            duration_nanos(c.reconnect_interval) == NANOS_PER_SEC,
            c.max_reconnect_attempts == 0,
            c.sequence_reset_policy == SequenceResetPolicy::Daily,
            c.validate_comp_ids,
            c.max_msg_rate == 50000,
    {
        SessionConfig {
            session_id: String::new(),
            fix_version: "FIX.4.4".to_owned(),
            sender_comp_id: String::new(),
            target_comp_id: String::new(),
            role: SessionRole::Initiator,
            heartbeat_interval: duration_from_secs(30),
            reconnect_interval: duration_from_secs(1),
            max_reconnect_attempts: 0,
            sequence_reset_policy: SequenceResetPolicy::Daily,
            validate_comp_ids: true,
            max_msg_rate: 50_000,
        }
    }
}

/// Actions that the session state machine requests the transport layer to perform.
#[derive(Debug, Clone, PartialEq, Eq)]
pub enum SessionAction {
    /// Send a FIX message.
    Send(Vec<u8>),
    /// Disconnect the transport.
    Disconnect,
    /// No action needed.
    Nothing,
}

/// What a heartbeat check decides.
#[derive(Debug, Clone, Copy, PartialEq, Eq, Structural)]
pub enum HeartbeatDecision {
    /// Nothing is due.
    Idle,
    /// Nothing was sent for a heartbeat interval: send a Heartbeat.
    SendHeartbeat,
    /// Nothing was received for a heartbeat interval plus five seconds: send a TestRequest.
    SendTestRequest,
    /// A TestRequest went unanswered: disconnect.
    Disconnect,
}

/// The heartbeat rule, over elapsed times in nanoseconds.
pub open spec fn spec_heartbeat_decision(
    state: SessionState,
    since_sent: u128,
    since_received: u128,
    interval: u128,
    test_request_pending: bool,
) -> HeartbeatDecision {
    if state != SessionState::Active {
        HeartbeatDecision::Idle
    } else if since_sent >= interval {
        HeartbeatDecision::SendHeartbeat
    } else if since_received >= interval + 5 * NANOS_PER_SEC {
        if test_request_pending {
            HeartbeatDecision::Disconnect
        } else {
            HeartbeatDecision::SendTestRequest
        }
    } else {
        HeartbeatDecision::Idle
    }
}

/// Decide what a heartbeat check does, given the time since the last message was sent and
/// since the last one was received, and the heartbeat interval (all in nanoseconds).
pub fn heartbeat_decision(
    state: SessionState,
    since_sent: u128,
    since_received: u128,
    interval: u128,
    test_request_pending: bool,
) -> (d: HeartbeatDecision)
    requires
        interval + 5 * NANOS_PER_SEC <= u128::MAX,
    ensures
        d == spec_heartbeat_decision(state, since_sent, since_received, interval, test_request_pending),
{
    if state != SessionState::Active {
        return HeartbeatDecision::Idle;
    }
    if since_sent >= interval {
        return HeartbeatDecision::SendHeartbeat;
    }
    let timeout = interval + 5 * NANOS_PER_SEC;
    if since_received >= timeout {
        if test_request_pending {
            HeartbeatDecision::Disconnect
        } else {
            HeartbeatDecision::SendTestRequest
        }
    } else {
        HeartbeatDecision::Idle
    }
}

/// How a heartbeat decision shows: the action returned and whether a TestRequest is
/// outstanding afterwards.
pub open spec fn heartbeat_effect(
    d: HeartbeatDecision,
    pending_before: bool,
    pending_after: bool,
    a: SessionAction,
) -> bool {
    match d {
        HeartbeatDecision::Idle => a == SessionAction::Nothing && pending_after == pending_before,
        HeartbeatDecision::SendHeartbeat => (a matches SessionAction::Send(v) && v@.len() == 0)
            && pending_after == pending_before,
        HeartbeatDecision::SendTestRequest => (a matches SessionAction::Send(v) && v@.len() == 0)
            && pending_after,
        HeartbeatDecision::Disconnect => a == SessionAction::Disconnect && pending_after
            == pending_before,
    }
}

/// One step of the rate limiter: the window's message count after this message, and
/// whether the message is allowed. A window older than a second starts afresh.
pub open spec fn spec_rate_limit(count: u32, elapsed: u128, max_rate: u32) -> (u32, bool) {
    let base: u32 = if elapsed >= NANOS_PER_SEC {
        0
    } else {
        count
    };
    let next = base.wrapping_add(1);
    (next, next <= max_rate)
}

/// Count one message against the rate limit, given the window's count so far and the
/// nanoseconds since the window began. Returns the new count and whether it is allowed.
pub fn rate_limit_step(count: u32, elapsed: u128, max_rate: u32) -> (r: (u32, bool))
    ensures
        r == spec_rate_limit(count, elapsed, max_rate),
{
    let base: u32 = if elapsed >= NANOS_PER_SEC {
        0
    } else {
        count
    };
    let next = base.wrapping_add(1);
    (next, next <= max_rate)
}

/// FIX session: state, sequence numbers, heartbeat timing, reconnects and rate limiting.
#[derive(Debug)]
pub struct Session {
    config: SessionConfig,
    state: SessionState,
    outbound_seq_num: u64,
    inbound_seq_num: u64,
    last_sent_time: Instant,
    last_received_time: Instant,
    test_request_pending: bool,
    test_request_sent_time: Option<Instant>,
    reconnect_attempts: u32,
    msg_count_window: u32,
    window_start: Instant,
}

/// The send timer is as it was.
pub open spec fn keeps_last_sent(s0: Session, s1: Session) -> bool {
    s1.spec_last_sent() == s0.spec_last_sent()
}

/// The receive timer is as it was.
pub open spec fn keeps_last_received(s0: Session, s1: Session) -> bool {
    s1.spec_last_received() == s0.spec_last_received()
}

/// The TestRequest time and the rate-limit window are as they were.
pub open spec fn keeps_other_times(s0: Session, s1: Session) -> bool {
    &&& s1.spec_test_request_sent_time() == s0.spec_test_request_sent_time()
    &&& s1.spec_window_start() == s0.spec_window_start()
}

/// Every timer of the session is as it was.
pub open spec fn keeps_times(s0: Session, s1: Session) -> bool {
    &&& keeps_last_sent(s0, s1)
    &&& keeps_last_received(s0, s1)
    &&& keeps_other_times(s0, s1)
}

/// How `Session::next_outbound_seq_num` changes a session.
pub open spec fn next_outbound_seq_num_step(s0: Session, s1: Session, seq: u64) -> bool {
    &&& seq == s0.spec_outbound()
    &&& s1.spec_outbound() == s0.spec_outbound().wrapping_add(1)
    &&& s1.spec_inbound() == s0.spec_inbound()
    &&& s1.spec_state() == s0.spec_state()
    &&& s1.spec_config() == s0.spec_config()
    &&& s1.spec_test_request_pending() == s0.spec_test_request_pending()
    &&& s1.spec_reconnect_attempts() == s0.spec_reconnect_attempts()
    &&& s1.spec_msg_count() == s0.spec_msg_count()
    &&& keeps_times(s0, s1)
}

/// How `Session::on_connected` changes a session.
pub open spec fn on_connected_step(s0: Session, s1: Session) -> bool {
    &&& (s0.spec_state() == SessionState::Disconnected || s0.spec_state()
        == SessionState::Connecting) ==> {
        &&& s1.spec_state() == if s0.spec_config().role
            == SessionRole::Initiator {
            SessionState::LogonSent
        } else {
            SessionState::Connecting
        }
        &&& s1.spec_reconnect_attempts() == 0
    }
    &&& !(s0.spec_state() == SessionState::Disconnected || s0.spec_state()
        == SessionState::Connecting) ==> {
        &&& s1.spec_state() == s0.spec_state()
        &&& s1.spec_reconnect_attempts() == s0.spec_reconnect_attempts()
    }
    &&& s1.spec_config() == s0.spec_config()
    &&& s1.spec_outbound() == s0.spec_outbound()
    &&& s1.spec_inbound() == s0.spec_inbound()
    &&& s1.spec_test_request_pending() == s0.spec_test_request_pending()
    &&& s1.spec_msg_count() == s0.spec_msg_count()
    &&& keeps_other_times(s0, s1)
    &&& !(s0.spec_state() == SessionState::Disconnected || s0.spec_state() == SessionState::Connecting) ==> keeps_times(s0, s1)
}

/// How `Session::on_logon` changes a session.
pub open spec fn on_logon_step(s0: Session, s1: Session) -> bool {
    &&& s1.spec_state() == SessionState::Active
    &&& !s1.spec_test_request_pending()
    &&& s1.spec_config() == s0.spec_config()
    &&& s1.spec_outbound() == s0.spec_outbound()
    &&& s1.spec_inbound() == s0.spec_inbound()
    &&& s1.spec_reconnect_attempts() == s0.spec_reconnect_attempts()
    &&& s1.spec_msg_count() == s0.spec_msg_count()
    &&& keeps_last_sent(s0, s1) && keeps_other_times(s0, s1)
}

/// How `Session::validate_inbound_seq` changes a session.
pub open spec fn validate_inbound_seq_step(s0: Session, s1: Session, received_seq: u64, r: Result<(), (u64, u64)>) -> bool {
    &&& received_seq == s0.spec_inbound() ==> {
        &&& r is Ok
        &&& s1.spec_inbound() == s0.spec_inbound().wrapping_add(1)
        &&& s1.spec_state() == s0.spec_state()
    }
    &&& received_seq > s0.spec_inbound() ==> {
        &&& r == Err::<(), (u64, u64)>((s0.spec_inbound(), received_seq))
        &&& s1.spec_inbound() == s0.spec_inbound()
        &&& s1.spec_state() == SessionState::Resending
    }
    &&& received_seq < s0.spec_inbound() ==> {
        &&& r is Ok
        &&& s1.spec_inbound() == s0.spec_inbound()
        &&& s1.spec_state() == s0.spec_state()
    }
    &&& s1.spec_config() == s0.spec_config()
    &&& s1.spec_outbound() == s0.spec_outbound()
    &&& s1.spec_test_request_pending() == s0.spec_test_request_pending()
    &&& s1.spec_reconnect_attempts() == s0.spec_reconnect_attempts()
    &&& s1.spec_msg_count() == s0.spec_msg_count()
    &&& keeps_last_sent(s0, s1) && keeps_other_times(s0, s1) && (received_seq != s0.spec_inbound() ==> keeps_last_received(s0, s1))
}

/// How `Session::on_gap_filled` changes a session.
pub open spec fn on_gap_filled_step(s0: Session, s1: Session, new_seq: u64) -> bool {
    &&& s1.spec_inbound() == new_seq
    &&& s1.spec_state() == SessionState::Active
    &&& s1.spec_config() == s0.spec_config()
    &&& s1.spec_outbound() == s0.spec_outbound()
    &&& s1.spec_test_request_pending() == s0.spec_test_request_pending()
    &&& s1.spec_reconnect_attempts() == s0.spec_reconnect_attempts()
    &&& s1.spec_msg_count() == s0.spec_msg_count()
    &&& keeps_times(s0, s1)
}

/// How `Session::on_logout_sent` changes a session.
pub open spec fn on_logout_sent_step(s0: Session, s1: Session) -> bool {
    &&& s1.spec_state() == SessionState::LogoutSent
    &&& s1.spec_config() == s0.spec_config()
    &&& s1.spec_outbound() == s0.spec_outbound()
    &&& s1.spec_inbound() == s0.spec_inbound()
    &&& s1.spec_test_request_pending() == s0.spec_test_request_pending()
    &&& s1.spec_reconnect_attempts() == s0.spec_reconnect_attempts()
    &&& s1.spec_msg_count() == s0.spec_msg_count()
    &&& keeps_times(s0, s1)
}

/// How `Session::on_disconnected` changes a session.
pub open spec fn on_disconnected_step(s0: Session, s1: Session) -> bool {
    &&& s1.spec_state() == SessionState::Disconnected
    &&& !s1.spec_test_request_pending()
    &&& s1.spec_config() == s0.spec_config()
    &&& s1.spec_outbound() == s0.spec_outbound()
    &&& s1.spec_inbound() == s0.spec_inbound()
    &&& s1.spec_reconnect_attempts() == s0.spec_reconnect_attempts()
    &&& s1.spec_msg_count() == s0.spec_msg_count()
    &&& keeps_times(s0, s1)
}

/// What a heartbeat check at `now` decides for an active session: from the time since the
/// last send and since the last receive, both measured to `now`.
pub open spec fn heartbeat_decision_at(s0: Session, now: Instant) -> HeartbeatDecision {
    spec_heartbeat_decision(
        s0.spec_state(),
        duration_nanos(elapsed_between(now, s0.spec_last_sent())),
        duration_nanos(elapsed_between(now, s0.spec_last_received())),
        duration_nanos(s0.spec_config().heartbeat_interval),
        s0.spec_test_request_pending(),
    )
}

/// How `Session::check_heartbeat` at `now` changes a session. An inactive session is left
/// as it is. An active one takes the decision `heartbeat_decision_at` gives: a Heartbeat
/// restarts the send timer at `now`, a TestRequest is marked outstanding and timed at `now`.
pub open spec fn check_heartbeat_step(s0: Session, s1: Session, now: Instant, a: SessionAction) -> bool {
    &&& s0.spec_state() != SessionState::Active ==> a == SessionAction::Nothing && s1 == s0
    &&& s0.spec_state() == SessionState::Active ==> {
        let d = heartbeat_decision_at(s0, now);
        &&& heartbeat_effect(d, s0.spec_test_request_pending(), s1.spec_test_request_pending(), a)
        &&& s1.spec_last_sent() == if d == HeartbeatDecision::SendHeartbeat {
            now
        } else {
            s0.spec_last_sent()
        }
        &&& s1.spec_test_request_sent_time() == if d == HeartbeatDecision::SendTestRequest {
            Some(now)
        } else {
            s0.spec_test_request_sent_time()
        }
        &&& s1.spec_last_received() == s0.spec_last_received()
        &&& s1.spec_window_start() == s0.spec_window_start()
    }
    &&& s1.spec_state() == s0.spec_state()
    &&& s1.spec_config() == s0.spec_config()
    &&& s1.spec_outbound() == s0.spec_outbound()
    &&& s1.spec_inbound() == s0.spec_inbound()
    &&& s1.spec_reconnect_attempts() == s0.spec_reconnect_attempts()
    &&& s1.spec_msg_count() == s0.spec_msg_count()
}

/// How `Session::on_message_sent` changes a session.
pub open spec fn on_message_sent_step(s0: Session, s1: Session) -> bool {
    &&& s1.spec_state() == s0.spec_state()
    &&& s1.spec_config() == s0.spec_config()
    &&& s1.spec_outbound() == s0.spec_outbound()
    &&& s1.spec_inbound() == s0.spec_inbound()
    &&& s1.spec_test_request_pending() == s0.spec_test_request_pending()
    &&& s1.spec_reconnect_attempts() == s0.spec_reconnect_attempts()
    &&& s1.spec_msg_count() == s0.spec_msg_count()
    &&& keeps_last_received(s0, s1) && keeps_other_times(s0, s1)
}

/// How `Session::on_message_received` changes a session.
pub open spec fn on_message_received_step(s0: Session, s1: Session) -> bool {
    &&& !s1.spec_test_request_pending()
    &&& s1.spec_state() == s0.spec_state()
    &&& s1.spec_config() == s0.spec_config()
    &&& s1.spec_outbound() == s0.spec_outbound()
    &&& s1.spec_inbound() == s0.spec_inbound()
    &&& s1.spec_reconnect_attempts() == s0.spec_reconnect_attempts()
    &&& s1.spec_msg_count() == s0.spec_msg_count()
    &&& keeps_last_sent(s0, s1) && keeps_other_times(s0, s1)
}

/// How `Session::on_reconnect_attempt` changes a session.
pub open spec fn on_reconnect_attempt_step(s0: Session, s1: Session) -> bool {
    &&& s1.spec_reconnect_attempts() == s0.spec_reconnect_attempts().wrapping_add(1)
    &&& s1.spec_state() == SessionState::Connecting
    &&& s1.spec_config() == s0.spec_config()
    &&& s1.spec_outbound() == s0.spec_outbound()
    &&& s1.spec_inbound() == s0.spec_inbound()
    &&& s1.spec_test_request_pending() == s0.spec_test_request_pending()
    &&& s1.spec_msg_count() == s0.spec_msg_count()
    &&& keeps_times(s0, s1)
}

/// How `Session::reset_sequences` changes a session.
pub open spec fn reset_sequences_step(s0: Session, s1: Session) -> bool {
    &&& s1.spec_outbound() == 1
    &&& s1.spec_inbound() == 1
    &&& s1.spec_state() == s0.spec_state()
    &&& s1.spec_config() == s0.spec_config()
    &&& s1.spec_test_request_pending() == s0.spec_test_request_pending()
    &&& s1.spec_reconnect_attempts() == s0.spec_reconnect_attempts()
    &&& s1.spec_msg_count() == s0.spec_msg_count()
    &&& keeps_times(s0, s1)
}

/// How `Session::check_rate_limit` changes a session, the clock reading `now`: the time
/// since the window began decides the count and whether the message is allowed, and a window
/// older than a second starts afresh at `now`.
pub open spec fn check_rate_limit_step(s0: Session, s1: Session, allowed: bool) -> bool {
    &&& exists|now: Instant|
        #![trigger elapsed_between(now, s0.spec_window_start())]
        {
            &&& spec_rate_limit(
                s0.spec_msg_count(),
                duration_nanos(elapsed_between(now, s0.spec_window_start())),
                s0.spec_config().max_msg_rate,
            ) == (s1.spec_msg_count(), allowed)
            &&& s1.spec_window_start() == if duration_nanos(elapsed_between(now, s0.spec_window_start()))
                >= NANOS_PER_SEC {
                now
            } else {
                s0.spec_window_start()
            }
        }
    &&& s1.spec_msg_count() == 1 || s1.spec_msg_count() == s0.spec_msg_count().wrapping_add(1)
    &&& allowed == (s1.spec_msg_count() <= s0.spec_config().max_msg_rate)
    &&& s1.spec_state() == s0.spec_state()
    &&& s1.spec_config() == s0.spec_config()
    &&& s1.spec_outbound() == s0.spec_outbound()
    &&& s1.spec_inbound() == s0.spec_inbound()
    &&& s1.spec_test_request_pending() == s0.spec_test_request_pending()
    &&& s1.spec_reconnect_attempts() == s0.spec_reconnect_attempts()
    &&& s1.spec_last_sent() == s0.spec_last_sent()
    &&& s1.spec_last_received() == s0.spec_last_received()
}

impl Session {
    pub closed spec fn spec_config(&self) -> SessionConfig {
        self.config
    }

    pub closed spec fn spec_state(&self) -> SessionState {
        self.state
    }

    /// The next outbound sequence number.
    pub closed spec fn spec_outbound(&self) -> u64 {
        self.outbound_seq_num
    }

    /// The expected inbound sequence number.
    pub closed spec fn spec_inbound(&self) -> u64 {
        self.inbound_seq_num
    }

    pub closed spec fn spec_test_request_pending(&self) -> bool {
        self.test_request_pending
    }

    pub closed spec fn spec_reconnect_attempts(&self) -> u32 {
        self.reconnect_attempts
    }

    /// Messages counted in the current rate-limit window.
    pub closed spec fn spec_msg_count(&self) -> u32 {
        self.msg_count_window
    }

    /// When the last message was sent (the heartbeat send timer).
    pub closed spec fn spec_last_sent(&self) -> Instant {
        self.last_sent_time
    }

    /// When the last message was received.
    pub closed spec fn spec_last_received(&self) -> Instant {
        self.last_received_time
    }

    /// When the outstanding TestRequest was sent, if one was.
    pub closed spec fn spec_test_request_sent_time(&self) -> Option<Instant> {
        self.test_request_sent_time
    }

    /// When the current rate-limit window began.
    pub closed spec fn spec_window_start(&self) -> Instant {
        self.window_start
    }

    /// A new session: disconnected, both sequence numbers at 1, no reconnect attempts.
    pub fn new(config: SessionConfig) -> (s: Self)
        ensures
            s.spec_config() == config,
            s.spec_state() == SessionState::Disconnected,
            s.spec_outbound() == 1,
            s.spec_inbound() == 1,
            !s.spec_test_request_pending(),
            s.spec_reconnect_attempts() == 0,
            s.spec_msg_count() == 0,
            s.spec_last_received() == s.spec_last_sent(),
            s.spec_window_start() == s.spec_last_sent(),
            s.spec_test_request_sent_time() is None,
    {
        let now = instant_now();
        Session {
            config,
            state: SessionState::Disconnected,
            outbound_seq_num: 1,
            inbound_seq_num: 1,
            last_sent_time: now,
            last_received_time: now,
            test_request_pending: false,
            test_request_sent_time: None,
            reconnect_attempts: 0,
            msg_count_window: 0,
            window_start: now,
        }
    }

    /// The current session state.
    pub fn state(&self) -> (s: SessionState)
        ensures
            s == self.spec_state(),
    {
        self.state
    }

    /// The session configuration.
    pub fn config(&self) -> (c: &SessionConfig)
        ensures
            *c == self.spec_config(),
    {
        &self.config
    }

    /// Take the next outbound sequence number: returns it and advances the counter.
    pub fn next_outbound_seq_num(&mut self) -> (seq: u64)
        ensures
            next_outbound_seq_num_step(*old(self), *final(self), seq),
    {
        let seq = self.outbound_seq_num;
        self.outbound_seq_num = self.outbound_seq_num.wrapping_add(1);
        seq
    }

    /// The expected inbound sequence number.
    pub fn expected_inbound_seq_num(&self) -> (n: u64)
        ensures
            n == self.spec_inbound(),
    {
        self.inbound_seq_num
    }

    /// The next outbound sequence number, without taking it.
    pub fn current_outbound_seq_num(&self) -> (n: u64)
        ensures
            n == self.spec_outbound(),
    {
        self.outbound_seq_num
    }

    /// The transport connected. From Disconnected or Connecting an initiator has sent its
    /// Logon and an acceptor waits for one; the reconnect count starts over. In any other
    /// state nothing changes.
    pub fn on_connected(&mut self)
        ensures
            on_connected_step(*old(self), *final(self)),
    {
        match self.state {
            SessionState::Disconnected | SessionState::Connecting => {
                if self.config.role == SessionRole::Initiator {
                    self.state = SessionState::LogonSent;
                } else {
                    self.state = SessionState::Connecting;
                }
                self.last_received_time = instant_now();
                self.last_sent_time = instant_now();
                self.reconnect_attempts = 0;
            },
            _ => {},
        }
    }

    /// Logon completed: the session is active and no TestRequest is outstanding.
    pub fn on_logon(&mut self)
        ensures
            on_logon_step(*old(self), *final(self)),
    {
        self.state = SessionState::Active;
        self.last_received_time = instant_now();
        self.test_request_pending = false;
    }

    /// Check an inbound sequence number. The expected one is accepted and the expectation
    /// advances; a higher one is a gap: the session enters Resending and the gap (expected,
    /// received) is returned; a lower one (a duplicate) is ignored.
    pub fn validate_inbound_seq(&mut self, received_seq: u64) -> (r: Result<(), (u64, u64)>)
        ensures
            validate_inbound_seq_step(*old(self), *final(self), received_seq, r),
    {
        if received_seq == self.inbound_seq_num {
            self.inbound_seq_num = self.inbound_seq_num.wrapping_add(1);
            self.last_received_time = instant_now();
            Ok(())
        } else if received_seq > self.inbound_seq_num {
            let gap_start = self.inbound_seq_num;
            let gap_end = received_seq;
            self.state = SessionState::Resending;
            Err((gap_start, gap_end))
        } else {
            Ok(())
        }
    }

    /// The gap was filled up to `new_seq`: expect `new_seq` next and resume.
    pub fn on_gap_filled(&mut self, new_seq: u64)
        ensures
            on_gap_filled_step(*old(self), *final(self), new_seq),
    {
        self.inbound_seq_num = new_seq;
        self.state = SessionState::Active;
    }

    /// A Logout was sent.
    pub fn on_logout_sent(&mut self)
        ensures
            on_logout_sent_step(*old(self), *final(self)),
    {
        self.state = SessionState::LogoutSent;
    }

    /// The transport disconnected; any outstanding TestRequest is forgotten.
    pub fn on_disconnected(&mut self)
        ensures
            on_disconnected_step(*old(self), *final(self)),
    {
        self.state = SessionState::Disconnected;
        self.test_request_pending = false;
    }

    /// Periodic heartbeat check at time `now`; see `heartbeat_decision` for the rule. A
    /// Heartbeat restarts the send timer; a TestRequest is remembered as outstanding.
    pub fn check_heartbeat(&mut self, now: Instant) -> (a: SessionAction)
        requires
            old(self).spec_state() == SessionState::Active ==> duration_nanos(
                old(self).spec_config().heartbeat_interval,
            ) / NANOS_PER_SEC + 5 <= u64::MAX,
        ensures
            check_heartbeat_step(*old(self), *final(self), now, a),
    {
        if self.state != SessionState::Active {
            return SessionAction::Nothing;
        }
        let since_sent = as_nanos(&duration_since(&now, &self.last_sent_time));
        let since_received = as_nanos(&duration_since(&now, &self.last_received_time));
        let interval = as_nanos(&self.config.heartbeat_interval);
        let pending = self.test_request_pending;
        let d = heartbeat_decision(self.state, since_sent, since_received, interval, pending);
        assert(d == heartbeat_decision_at(*old(self), now));
        let a = match d {
            HeartbeatDecision::SendHeartbeat => {
                self.last_sent_time = now;
                SessionAction::Send(Vec::new())
            },
            HeartbeatDecision::SendTestRequest => {
                self.test_request_pending = true;
                self.test_request_sent_time = Some(now);
                SessionAction::Send(Vec::new())
            },
            HeartbeatDecision::Disconnect => SessionAction::Disconnect,
            HeartbeatDecision::Idle => SessionAction::Nothing,
        };
        a
    }

    /// A message was sent (restarts the heartbeat send timer).
    pub fn on_message_sent(&mut self)
        ensures
            on_message_sent_step(*old(self), *final(self)),
    {
        self.last_sent_time = instant_now();
    }

    /// A message was received: restarts the receive timer and answers any TestRequest.
    pub fn on_message_received(&mut self)
        ensures
            on_message_received_step(*old(self), *final(self)),
    {
        self.last_received_time = instant_now();
        self.test_request_pending = false;
    }

    /// Whether to reconnect: only a disconnected initiator that has not used up its
    /// reconnect attempts (0 means unlimited).
    pub fn should_reconnect(&self) -> (b: bool)
        ensures
            b == (self.spec_state() == SessionState::Disconnected && self.spec_config().role
                == SessionRole::Initiator && (self.spec_config().max_reconnect_attempts == 0
                || self.spec_reconnect_attempts() < self.spec_config().max_reconnect_attempts)),
    {
        if self.state != SessionState::Disconnected {
            return false;
        }
        if self.config.role != SessionRole::Initiator {
            return false;
        }
        if self.config.max_reconnect_attempts > 0 && self.reconnect_attempts
            >= self.config.max_reconnect_attempts {
            return false;
        }
        true
    }

    /// Count a reconnect attempt and move to Connecting.
    pub fn on_reconnect_attempt(&mut self)
        ensures
            on_reconnect_attempt_step(*old(self), *final(self)),
    {
        self.reconnect_attempts = self.reconnect_attempts.wrapping_add(1);
        self.state = SessionState::Connecting;
    }

    /// Reset both sequence numbers to 1 (e.g. at start of day).
    pub fn reset_sequences(&mut self)
        ensures
            reset_sequences_step(*old(self), *final(self)),
    {
        self.outbound_seq_num = 1;
        self.inbound_seq_num = 1;
    }

    /// Count a message against the per-second rate limit; returns whether it is allowed.
    /// The count restarts when the current window is a second old or older.
    pub fn check_rate_limit(&mut self) -> (allowed: bool)
        ensures
            check_rate_limit_step(*old(self), *final(self), allowed),
    {
        let now = instant_now();
        let elapsed = as_nanos(&duration_since(&now, &self.window_start));
        let (count, allowed) = rate_limit_step(self.msg_count_window, elapsed, self.config.max_msg_rate);
        assert(spec_rate_limit(old(self).spec_msg_count(), elapsed, old(self).spec_config().max_msg_rate) == (count, allowed));
        if elapsed >= NANOS_PER_SEC {
            self.window_start = now;
        }
        self.msg_count_window = count;
        assert(duration_nanos(elapsed_between(now, old(self).spec_window_start())) == elapsed);
        allowed
    }
}


/// Successive outbound sequence numbers: over `k` calls of `next_outbound_seq_num` from a
/// session whose next number `c` leaves room for `k` more, the calls return `c`, `c + 1`,
/// ..., `c + k - 1` and the next number ends at `c + k`.
pub proof fn lemma_outbound_numbers(ss: Seq<Session>, seqs: Seq<u64>)
    requires
        ss.len() == seqs.len() + 1,
        forall|i: int| 0 <= i < seqs.len() ==> #[trigger] next_outbound_seq_num_step(ss[i], ss[i + 1], seqs[i]),
        ss[0].spec_outbound() + seqs.len() <= u64::MAX,
    ensures
        forall|i: int| 0 <= i < seqs.len() ==> #[trigger] seqs[i] == ss[0].spec_outbound() + i,
        ss.last().spec_outbound() == ss[0].spec_outbound() + seqs.len(),
    decreases seqs.len(),
{
    if seqs.len() > 0 {
        let n = seqs.len() - 1;
        lemma_outbound_numbers(ss.drop_last(), seqs.drop_last());
        assert(next_outbound_seq_num_step(ss[n], ss[n + 1], seqs[n]));
        assert(ss.drop_last().last() == ss[n]);
        assert forall|i: int| 0 <= i < seqs.len() implies #[trigger] seqs[i] == ss[0].spec_outbound() + i by {
            if i < n {
                assert(seqs.drop_last()[i] == seqs[i]);
            }
        }
    }
}


/// The heartbeat rules: an inactive session does nothing; a Heartbeat goes out once nothing
/// was sent for an interval; otherwise, once nothing was received for an interval plus five
/// seconds, a TestRequest goes out when none is outstanding and the session disconnects when
/// one already is; otherwise nothing is due. So a disconnect needs an outstanding TestRequest.
pub proof fn lemma_heartbeat_rules(
    state: SessionState,
    since_sent: u128,
    since_received: u128,
    interval: u128,
    pending: bool,
)
    ensures
        spec_heartbeat_decision(state, since_sent, since_received, interval, pending)
            == HeartbeatDecision::Disconnect ==> pending && state == SessionState::Active,
        state != SessionState::Active ==> spec_heartbeat_decision(state, since_sent, since_received, interval, pending)
            == HeartbeatDecision::Idle,
        state == SessionState::Active && since_sent >= interval ==> spec_heartbeat_decision(
            state,
            since_sent,
            since_received,
            interval,
            pending,
        ) == HeartbeatDecision::SendHeartbeat,
        state == SessionState::Active && since_sent < interval && since_received >= interval + 5_000_000_000
            ==> spec_heartbeat_decision(state, since_sent, since_received, interval, pending) == if pending {
            HeartbeatDecision::Disconnect
        } else {
            HeartbeatDecision::SendTestRequest
        },
        state == SessionState::Active && since_sent < interval && since_received < interval + 5_000_000_000
            ==> spec_heartbeat_decision(state, since_sent, since_received, interval, pending)
            == HeartbeatDecision::Idle,
{
}

/// Two heartbeat checks: when a check sends a TestRequest, it is outstanding afterwards, so a
/// later check that still finds nothing received for an interval plus five seconds (and no
/// Heartbeat due) disconnects.
pub proof fn lemma_test_request_then_disconnect(
    s0: Session,
    s1: Session,
    s2: Session,
    now1: Instant,
    now2: Instant,
    a1: SessionAction,
    a2: SessionAction,
)
    requires
        check_heartbeat_step(s0, s1, now1, a1),
        check_heartbeat_step(s1, s2, now2, a2),
        s0.spec_state() == SessionState::Active,
        heartbeat_decision_at(s0, now1) == HeartbeatDecision::SendTestRequest,
        duration_nanos(elapsed_between(now2, s1.spec_last_sent())) < duration_nanos(s1.spec_config().heartbeat_interval),
        duration_nanos(elapsed_between(now2, s1.spec_last_received())) >= duration_nanos(
            s1.spec_config().heartbeat_interval,
        ) + 5_000_000_000,
    ensures
        a1 matches SessionAction::Send(_),
        s1.spec_test_request_pending(),
        a2 == SessionAction::Disconnect,
{
}

} // verus!
