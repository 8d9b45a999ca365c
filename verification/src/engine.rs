//! The FIX protocol engine for one connection: the session protocol's decisions over a
//! transport (Logon, heartbeats, inbound dispatch, Logout) and the receive buffer that
//! frames inbound messages. The caller runs the loop that waits on the transport and
//! calls the application's callbacks; each step of that loop is a method here.

use vstd::prelude::*;
use vstd::utf8::encode_utf8;
use std::time::Instant;
use crate::decimal::{dec_digits, signed_digits};
use crate::message::MessageView;
use crate::parser::{FixParser, first_boundary};
use crate::decimal::spec_parse_u64;
use crate::tags;
use crate::serializer::{
    build_heartbeat,
    build_logon,
    build_logout,
    framed_message,
    heartbeat_body,
    logon_body,
    logout_body,
};
use crate::session::{
    Session,
    SessionAction,
    SessionRole,
    SessionState,
    as_nanos,
    duration_nanos,
    NANOS_PER_SEC,
    next_outbound_seq_num_step,
    on_connected_step,
    on_logon_step,
    on_logout_sent_step,
    check_heartbeat_step,
    on_disconnected_step,
    on_message_sent_step,
    on_message_received_step,
    validate_inbound_seq_step,
};
use crate::timestamp::{HrTimestamp, TimestampSource, fix_timestamp_ms};
use crate::transport::Transport;

verus! {

// ---------------------------------------------------------------------------
// Dispatch of inbound messages
// ---------------------------------------------------------------------------

/// What an inbound message calls for.
#[derive(Debug, Clone, Copy, PartialEq, Eq, Structural)]
pub enum Dispatch {
    /// A Logon to an acceptor that is not logged on yet: answer it with a Logon.
    AcceptLogon,
    /// The counterparty's answer to our Logon.
    LogonConfirmed,
    /// A Logon in any other state: nothing to do.
    IgnoredLogon,
    /// A Heartbeat: nothing to do.
    Heartbeat,
    /// A TestRequest: answer with a Heartbeat.
    TestRequest,
    /// A Logout.
    Logout,
    /// Any other message type: for the application.
    Application,
}

/// The dispatch of an inbound message of type `msg_type` in a session of role `role` in
/// state `state`.
pub open spec fn spec_dispatch(role: SessionRole, state: SessionState, msg_type: Seq<u8>) -> Dispatch {
    if msg_type == seq![65u8] {
        if role == SessionRole::Acceptor && (state == SessionState::Disconnected || state
            == SessionState::Connecting) {
            Dispatch::AcceptLogon
        } else if state == SessionState::LogonSent {
            Dispatch::LogonConfirmed
        } else {
            Dispatch::IgnoredLogon
        }
    } else if msg_type == seq![48u8] {
        Dispatch::Heartbeat
    } else if msg_type == seq![49u8] {
        Dispatch::TestRequest
    } else if msg_type == seq![53u8] {
        Dispatch::Logout
    } else {
        Dispatch::Application
    }
}

/// Decide what an inbound message of type `msg_type` calls for.
pub fn dispatch(role: SessionRole, state: SessionState, msg_type: &[u8]) -> (d: Dispatch)
    ensures
        d == spec_dispatch(role, state, msg_type@),
{
    if msg_type.len() == 1 {
        let t = msg_type[0];
        assert(msg_type@ =~= seq![t]);
        if t == 65 {
            if role == SessionRole::Acceptor && (state == SessionState::Disconnected || state
                == SessionState::Connecting) {
                return Dispatch::AcceptLogon;
            } else if state == SessionState::LogonSent {
                return Dispatch::LogonConfirmed;
            } else {
                return Dispatch::IgnoredLogon;
            }
        } else if t == 48 {
            return Dispatch::Heartbeat;
        } else if t == 49 {
            return Dispatch::TestRequest;
        } else if t == 53 {
            return Dispatch::Logout;
        }
    }
    Dispatch::Application
}

/// The MsgSeqNum of a message, when it has one that reads as a number.
pub open spec fn inbound_seq_num(view: MessageView) -> Option<u64> {
    match view.spec_get_field(tags::MSG_SEQ_NUM) {
        Some(v) => spec_parse_u64(v),
        None => None,
    }
}

/// What the heartbeat timer called for.
#[derive(Debug, Clone, Copy, PartialEq, Eq, Structural)]
pub enum TimerStep {
    /// Keep going (a Heartbeat may have been sent).
    Continue,
    /// The session timed out: stop.
    Stop,
}

/// What a receive from the transport gave.
#[derive(Debug, Clone, Copy, PartialEq, Eq, Structural)]
pub enum ReceiveStep {
    /// Nothing arrived.
    Nothing,
    /// `n` bytes arrived and were buffered.
    Data(usize),
    /// The connection was lost: the session is disconnected and the engine stops.
    Closed,
}

/// The kinds of I/O error that the engine tells apart.
#[derive(Debug, Clone, Copy, PartialEq, Eq, Structural)]
pub enum IoFailure {
    ConnectionReset,
    BrokenPipe,
    UnexpectedEof,
    /// Any other kind.
    Other,
}

/// The kind of an I/O error, as `std::io::Error::kind` reports it.
pub uninterp spec fn io_failure_of(e: std::io::Error) -> IoFailure;

/// Reads the kind of an I/O error with `std::io::Error::kind`, one arm per kind the
/// engine tells apart (`ErrorKind` is non-exhaustive, so the rest share one arm).
#[verifier::external_body]
fn io_failure(e: &std::io::Error) -> (k: IoFailure)
    ensures
        k == io_failure_of(*e),
{
    match e.kind() {
        std::io::ErrorKind::ConnectionReset => IoFailure::ConnectionReset,
        std::io::ErrorKind::BrokenPipe => IoFailure::BrokenPipe,
        std::io::ErrorKind::UnexpectedEof => IoFailure::UnexpectedEof,
        _ => IoFailure::Other,
    }
}

/// A failure of this kind means the connection was lost: reset, broken pipe or
/// unexpected end of file.
pub open spec fn spec_connection_lost(k: IoFailure) -> bool {
    k == IoFailure::ConnectionReset || k == IoFailure::BrokenPipe || k == IoFailure::UnexpectedEof
}

/// Whether an I/O failure of kind `k` means the connection was lost.
pub fn connection_lost(k: IoFailure) -> (b: bool)
    ensures
        b == spec_connection_lost(k),
{
    match k {
        IoFailure::ConnectionReset | IoFailure::BrokenPipe | IoFailure::UnexpectedEof => true,
        IoFailure::Other => false,
    }
}

/// The wall-clock time in nanoseconds since the Unix epoch, from `SystemTime::now`; zero
/// before the epoch. Nothing is stated of it: it is the clock's.
#[verifier::external_body]
fn wall_clock_nanos() -> u64 {
    std::time::SystemTime::now().duration_since(std::time::UNIX_EPOCH).map(|d| d.as_nanos() as u64).unwrap_or(0)
}

/// A FIX UTC timestamp with milliseconds, as the clock gives one.
pub open spec fn is_sending_time(ts: Seq<u8>) -> bool {
    exists|nanos: u64| ts == fix_timestamp_ms(nanos)
}

/// The current time as a FIX UTC timestamp with milliseconds.
fn now_timestamp() -> (ts: [u8; 21])
    ensures
        is_sending_time(ts@),
{
    let t = HrTimestamp { nanos: wall_clock_nanos(), source: TimestampSource::System };
    t.to_fix_timestamp()
}

// ---------------------------------------------------------------------------
// Message sizes
// ---------------------------------------------------------------------------

/// The UTF-8 bytes of a string.
pub open spec fn text_bytes(s: String) -> Seq<u8> {
    encode_utf8(s@)
}

/// The session's identifying strings leave room in memory for a whole message.
pub open spec fn config_fits(s: Session) -> bool {
    text_bytes(s.spec_config().fix_version).len() + text_bytes(s.spec_config().sender_comp_id).len()
        + text_bytes(s.spec_config().target_comp_id).len() + 256 <= usize::MAX
}

pub open spec fn pow10(k: nat) -> nat
    decreases k,
{
    if k == 0 {
        1
    } else {
        10 * pow10((k - 1) as nat)
    }
}

proof fn lemma_digits_at_most(v: nat, k: nat)
    requires
        1 <= k,
        v < pow10(k),
    ensures
        dec_digits(v).len() <= k,
    decreases k,
{
    if v >= 10 {
        assert(k >= 2) by {
            if k == 1 {
                reveal_with_fuel(pow10, 2);
                assert(pow10(1) == 10);
            }
        }
        lemma_digits_at_most(v / 10, (k - 1) as nat);
    }
}

proof fn lemma_number_lengths(seq: u64, hb: i64)
    ensures
        dec_digits(seq as nat).len() <= 20,
        signed_digits(hb).len() <= 21,
        dec_digits(8).len() == 1,
        dec_digits(35).len() == 2,
        dec_digits(49).len() == 2,
        dec_digits(56).len() == 2,
        dec_digits(34).len() == 2,
        dec_digits(52).len() == 2,
        dec_digits(98).len() == 2,
        dec_digits(108).len() == 3,
        signed_digits(0).len() == 1,
{
    reveal_with_fuel(dec_digits, 4);
    reveal_with_fuel(pow10, 21);
    assert(pow10(20) == 100000000000000000000);
    lemma_digits_at_most(seq as nat, 20);
    if hb < 0 {
        lemma_digits_at_most((0 - hb) as nat, 20);
    } else {
        lemma_digits_at_most(hb as nat, 20);
    }
}

/// Room enough for any session message with these identifying strings and a timestamp
/// of `ts_len` bytes.
pub open spec fn message_room(ver: nat, sender: nat, target: nat, ts_len: nat) -> nat {
    ver + sender + target + ts_len + 128
}

proof fn lemma_message_room(ver: Seq<u8>, sender: Seq<u8>, target: Seq<u8>, seq: u64, ts: Seq<u8>, hb: i64)
    ensures
        framed_message(ver, heartbeat_body(sender, target, seq, ts)).len() <= message_room(
            ver.len(),
            sender.len(),
            target.len(),
            ts.len(),
        ),
        framed_message(ver, logout_body(sender, target, seq, ts)).len() <= message_room(
            ver.len(),
            sender.len(),
            target.len(),
            ts.len(),
        ),
        framed_message(ver, logon_body(sender, target, seq, ts, hb)).len() <= message_room(
            ver.len(),
            sender.len(),
            target.len(),
            ts.len(),
        ),
{
    lemma_number_lengths(seq, hb);
    assert(crate::serializer::pad6(0).len() == 6);
}

/// A zeroed buffer of `n` bytes.
fn zeroed(n: usize) -> (v: Vec<u8>)
    ensures
        v@.len() == n,
{
    let mut v: Vec<u8> = Vec::new();
    while v.len() < n
        invariant
            v@.len() <= n,
        decreases n - v@.len(),
    {
        v.push(0);
    }
    v
}

/// Which session message to send.
#[derive(Clone, Copy, PartialEq, Eq, Structural)]
pub enum AdminMessage {
    Logon,
    Heartbeat,
    Logout,
}

/// The heartbeat interval a Logon carries: the session's interval in whole seconds.
pub open spec fn heartbeat_secs(config: crate::session::SessionConfig) -> i64 {
    ((duration_nanos(config.heartbeat_interval) / NANOS_PER_SEC) as u64) as i64
}

/// The wire form of a session message of kind `kind` from the session's identifying
/// strings, with sequence number `seq` and sending time `ts`.
pub open spec fn admin_bytes(
    kind: AdminMessage,
    config: crate::session::SessionConfig,
    seq: u64,
    ts: Seq<u8>,
) -> Seq<u8> {
    let ver = text_bytes(config.fix_version);
    let sender = text_bytes(config.sender_comp_id);
    let target = text_bytes(config.target_comp_id);
    match kind {
        AdminMessage::Logon => framed_message(ver, logon_body(sender, target, seq, ts, heartbeat_secs(config))),
        AdminMessage::Heartbeat => framed_message(ver, heartbeat_body(sender, target, seq, ts)),
        AdminMessage::Logout => framed_message(ver, logout_body(sender, target, seq, ts)),
    }
}

/// `h` is `h0` with one more session message of kind `kind` handed to the transport: one
/// with sequence number `seq` and a sending time read from the clock.
pub open spec fn handed_one(
    h0: Seq<Seq<u8>>,
    h: Seq<Seq<u8>>,
    kind: AdminMessage,
    config: crate::session::SessionConfig,
    seq: u64,
) -> bool {
    exists|ts: Seq<u8>| #[trigger] is_sending_time(ts) && h == h0.push(admin_bytes(kind, config, seq, ts))
}

/// The transport `t` is `t0` having sent the latest message of `handed`, for a transport
/// that keeps the record of what it sends.
pub open spec fn delivered<T: Transport>(t0: T, t: T, handed: Seq<Seq<u8>>) -> bool {
    t0.records_sent() ==> t.sent() == t0.sent().push(handed.last())
}

/// The session after a message was sent from `s0`: the outbound sequence number advanced
/// and, when the send succeeded (`ok`), the send was counted.
pub open spec fn sent_step(s0: Session, s: Session, ok: bool) -> bool {
    exists|s1: Session|
        #[trigger] next_outbound_seq_num_step(s0, s1, s0.spec_outbound()) && (ok ==> on_message_sent_step(s1, s))
            && (!ok ==> s == s1)
}

/// The session after it was marked as having sent its Logout and the send was counted.
pub open spec fn logout_counted_step(s0: Session, s: Session) -> bool {
    exists|s1: Session| #[trigger] on_logout_sent_step(s0, s1) && on_message_sent_step(s1, s)
}

/// The session after a Logout was sent from `s0`: the outbound sequence number advanced
/// and, when the send succeeded (`ok`), the session is marked as having sent its Logout
/// and the send was counted.
pub open spec fn logout_sent_step(s0: Session, s: Session, ok: bool) -> bool {
    exists|s1: Session|
        #[trigger] next_outbound_seq_num_step(s0, s1, s0.spec_outbound()) && (ok ==> logout_counted_step(s1, s))
            && (!ok ==> s == s1)
}

/// The wire form of a session message from the session's identifying strings, with
/// sequence number `seq` and sending time `ts`; a Logon carries the heartbeat interval in
/// whole seconds.
fn admin_message(kind: &AdminMessage, config: &crate::session::SessionConfig, seq: u64, ts: &[u8; 21]) -> (m: Vec<u8>)
    requires
        text_bytes(config.fix_version).len() + text_bytes(config.sender_comp_id).len() + text_bytes(
            config.target_comp_id,
        ).len() + 256 <= usize::MAX,
    ensures
        m@ == admin_bytes(*kind, *config, seq, ts@),
{
    let ver = config.fix_version.as_str().as_bytes();
    let sender = config.sender_comp_id.as_str().as_bytes();
    let target = config.target_comp_id.as_str().as_bytes();
    let interval = as_nanos(&config.heartbeat_interval);
    let secs = (interval / 1_000_000_000) as u64;
    let hb = #[verifier::truncate] (secs as i64);
    let ghost m = admin_bytes(*kind, *config, seq, ts@);
    proof {
        lemma_message_room(ver@, sender@, target@, seq, ts@, hb);
        assert(hb == heartbeat_secs(*config));
    }
    let room = ver.len() + sender.len() + target.len() + 21 + 128;
    let mut buf = zeroed(room);
    let len = match kind {
        AdminMessage::Logon => build_logon(buf.as_mut_slice(), ver, sender, target, seq, ts.as_slice(), hb),
        AdminMessage::Heartbeat => build_heartbeat(buf.as_mut_slice(), ver, sender, target, seq, ts.as_slice()),
        AdminMessage::Logout => build_logout(buf.as_mut_slice(), ver, sender, target, seq, ts.as_slice()),
    };
    assert(buf@.take(len as int) == m);
    buf.truncate(len);
    assert(buf@ =~= m);
    buf
}

// ---------------------------------------------------------------------------
// The engine
// ---------------------------------------------------------------------------

/// FIX protocol engine for a single connection.
pub struct FixEngine<T: Transport> {
    transport: T,
    parser: FixParser,
    session: Session,
    recv_buf: Vec<u8>,
    recv_pos: usize,
    should_stop: bool,
    /// The messages handed to the transport's `send`, in order.
    handed: Ghost<Seq<Seq<u8>>>,
    /// What each call that the engine made of the transport's `recv` gave: the bytes it
    /// delivered, or nothing when it failed.
    received: Ghost<Seq<Option<Seq<u8>>>>,
    /// Whether the engine has asked the transport to close.
    close_requested: Ghost<bool>,
}

/// The entry that a receive adds to the engine's record of reads: the bytes the transport
/// delivered into `scratch`, or nothing when the read failed.
pub open spec fn received_entry(r: Result<ReceiveStep, std::io::Error>, scratch: Seq<u8>) -> Option<Seq<u8>> {
    match r {
        Ok(ReceiveStep::Nothing) => Some(Seq::empty()),
        Ok(ReceiveStep::Data(n)) => Some(scratch.take(n as int)),
        _ => None,
    }
}

impl<T: Transport> FixEngine<T> {
    pub closed spec fn spec_session(&self) -> Session {
        self.session
    }

    /// The received bytes not yet taken as messages.
    pub closed spec fn spec_pending(&self) -> Seq<u8> {
        self.recv_buf@.take(self.recv_pos as int)
    }

    pub closed spec fn spec_should_stop(&self) -> bool {
        self.should_stop
    }

    pub closed spec fn spec_parser(&self) -> FixParser {
        self.parser
    }

    /// The transport.
    pub closed spec fn spec_transport(&self) -> T {
        self.transport
    }

    /// The messages the engine handed to the transport's `send`, in order.
    pub closed spec fn spec_handed(&self) -> Seq<Seq<u8>> {
        self.handed@
    }

    /// What each call that the engine made of the transport's `recv` gave, in order: the
    /// bytes it delivered, or nothing when it failed.
    pub closed spec fn spec_received(&self) -> Seq<Option<Seq<u8>>> {
        self.received@
    }

    /// Whether the engine has asked the transport to close.
    pub closed spec fn spec_close_requested(&self) -> bool {
        self.close_requested@
    }

    pub closed spec fn wf(&self) -> bool {
        self.recv_pos <= self.recv_buf@.len()
    }

    /// Create a new engine for an initiator session.
    pub fn new_initiator(transport: T, session: Session) -> (e: Self)
        ensures
            e.wf(),
            e.spec_session() == session,
            e.spec_pending().len() == 0,
            !e.spec_should_stop(),
            e.spec_parser().checks_checksum(),
            e.spec_parser().checks_body_length(),
            e.spec_parser().max_size() == 65536,
            e.spec_handed().len() == 0,
    {
        FixEngine {
            transport,
            parser: FixParser::new(),
            session,
            recv_buf: zeroed(65536),
            recv_pos: 0,
            should_stop: false,
            handed: Ghost(Seq::empty()),
            received: Ghost(Seq::empty()),
            close_requested: Ghost(false),
        }
    }

    /// Create a new engine for an acceptor session (connection already accepted).
    pub fn new_acceptor(transport: T, session: Session) -> (e: Self)
        ensures
            e.wf(),
            e.spec_session() == session,
            e.spec_pending().len() == 0,
            !e.spec_should_stop(),
            e.spec_parser().checks_checksum(),
            e.spec_parser().checks_body_length(),
            e.spec_parser().max_size() == 65536,
            e.spec_handed().len() == 0,
    {
        Self::new_initiator(transport, session)
    }

    /// The session.
    pub fn session(&self) -> (s: &Session)
        ensures
            *s == self.spec_session(),
    {
        &self.session
    }

    /// The parser used for inbound messages.
    pub fn parser(&self) -> (p: &FixParser)
        ensures
            *p == self.spec_parser(),
    {
        &self.parser
    }

    /// The transport and the session, for a callback that sends through both.
    pub fn parts_mut(&mut self) -> (r: (&mut T, &mut Session))
        ensures
            *r.1 == old(self).spec_session(),
            final(self).spec_session() == *final(r.1),
            final(self).spec_pending() == old(self).spec_pending(),
            final(self).spec_should_stop() == old(self).spec_should_stop(),
            final(self).spec_parser() == old(self).spec_parser(),
            final(self).spec_handed() == old(self).spec_handed(),
            final(self).wf() == old(self).wf(),
    {
        (&mut self.transport, &mut self.session)
    }

    /// The number of received bytes not yet taken as messages.
    pub fn pending_len(&self) -> (n: usize)
        requires
            self.wf(),
        ensures
            n == self.spec_pending().len(),
    {
        self.recv_pos
    }

    /// Whether the engine is to stop.
    pub fn should_stop(&self) -> (b: bool)
        ensures
            b == self.spec_should_stop(),
    {
        self.should_stop
    }

    /// Build a session message of kind `kind` with the next outbound sequence number and
    /// the current time, and hand it to the transport.
    #[verifier::rlimit(30)]
    fn hand_admin(&mut self, kind: AdminMessage) -> (r: Result<(), std::io::Error>)
        requires
            old(self).wf(),
            config_fits(old(self).spec_session()),
        ensures
            final(self).wf(),
            final(self).spec_pending() == old(self).spec_pending(),
            final(self).spec_should_stop() == old(self).spec_should_stop(),
            final(self).spec_parser() == old(self).spec_parser(),
            next_outbound_seq_num_step(old(self).spec_session(), final(self).spec_session(), old(self).spec_session().spec_outbound()),
            handed_one(
                old(self).spec_handed(),
                final(self).spec_handed(),
                kind,
                old(self).spec_session().spec_config(),
                old(self).spec_session().spec_outbound(),
            ),
            r is Ok ==> delivered(old(self).spec_transport(), final(self).spec_transport(), final(self).spec_handed()),
    {
        let ts = now_timestamp();
        let seq = self.session.next_outbound_seq_num();
        let msg = admin_message(&kind, self.session.config(), seq, &ts);
        proof {
            self.handed@ = self.handed@.push(msg@);
            assert(is_sending_time(ts@));
        }
        match self.transport.send(msg.as_slice()) {
            Ok(_) => Ok(()),
            Err(e) => Err(e),
        }
    }

    /// Send a Logon message.
    pub fn send_logon(&mut self) -> (r: Result<(), std::io::Error>)
        requires
            old(self).wf(),
            config_fits(old(self).spec_session()),
        ensures
            final(self).wf(),
            final(self).spec_pending() == old(self).spec_pending(),
            final(self).spec_should_stop() == old(self).spec_should_stop(),
            final(self).spec_parser() == old(self).spec_parser(),
            sent_step(old(self).spec_session(), final(self).spec_session(), r is Ok),
            handed_one(
                old(self).spec_handed(),
                final(self).spec_handed(),
                AdminMessage::Logon,
                old(self).spec_session().spec_config(),
                old(self).spec_session().spec_outbound(),
            ),
            r is Ok ==> delivered(old(self).spec_transport(), final(self).spec_transport(), final(self).spec_handed()),
    {
        let ghost s0 = self.session;
        let r = self.hand_admin(AdminMessage::Logon);
        let ghost s1 = self.session;
        if r.is_ok() {
            self.session.on_message_sent();
        }
        assert(next_outbound_seq_num_step(s0, s1, s0.spec_outbound()));
        r
    }

    /// Send a Heartbeat message.
    pub fn send_heartbeat(&mut self) -> (r: Result<(), std::io::Error>)
        requires
            old(self).wf(),
            config_fits(old(self).spec_session()),
        ensures
            final(self).wf(),
            final(self).spec_pending() == old(self).spec_pending(),
            final(self).spec_should_stop() == old(self).spec_should_stop(),
            final(self).spec_parser() == old(self).spec_parser(),
            sent_step(old(self).spec_session(), final(self).spec_session(), r is Ok),
            handed_one(
                old(self).spec_handed(),
                final(self).spec_handed(),
                AdminMessage::Heartbeat,
                old(self).spec_session().spec_config(),
                old(self).spec_session().spec_outbound(),
            ),
            r is Ok ==> delivered(old(self).spec_transport(), final(self).spec_transport(), final(self).spec_handed()),
    {
        let ghost s0 = self.session;
        let r = self.hand_admin(AdminMessage::Heartbeat);
        let ghost s1 = self.session;
        if r.is_ok() {
            self.session.on_message_sent();
        }
        assert(next_outbound_seq_num_step(s0, s1, s0.spec_outbound()));
        r
    }

    /// Send a Logout message; once sent, the session is marked as having sent it.
    pub fn send_logout(&mut self) -> (r: Result<(), std::io::Error>)
        requires
            old(self).wf(),
            config_fits(old(self).spec_session()),
        ensures
            final(self).wf(),
            final(self).spec_pending() == old(self).spec_pending(),
            final(self).spec_should_stop() == old(self).spec_should_stop(),
            final(self).spec_parser() == old(self).spec_parser(),
            logout_sent_step(old(self).spec_session(), final(self).spec_session(), r is Ok),
            handed_one(
                old(self).spec_handed(),
                final(self).spec_handed(),
                AdminMessage::Logout,
                old(self).spec_session().spec_config(),
                old(self).spec_session().spec_outbound(),
            ),
            r is Ok ==> delivered(old(self).spec_transport(), final(self).spec_transport(), final(self).spec_handed()),
    {
        let ghost s0 = self.session;
        let r = self.hand_admin(AdminMessage::Logout);
        let ghost s1 = self.session;
        if r.is_ok() {
            self.session.on_logout_sent();
            let ghost s2 = self.session;
            self.session.on_message_sent();
            assert(on_logout_sent_step(s1, s2));
        }
        assert(next_outbound_seq_num_step(s0, s1, s0.spec_outbound()));
        r
    }

    /// The session is connecting: mark it connected and send our Logon.
    pub fn start_initiator(&mut self) -> (r: Result<(), std::io::Error>)
        requires
            old(self).wf(),
            config_fits(old(self).spec_session()),
        ensures
            final(self).wf(),
            final(self).spec_pending() == old(self).spec_pending(),
            final(self).spec_should_stop() == old(self).spec_should_stop(),
            final(self).spec_parser() == old(self).spec_parser(),
            exists|s1: Session|
                #[trigger] on_connected_step(old(self).spec_session(), s1) && sent_step(
                    s1,
                    final(self).spec_session(),
                    r is Ok,
                ),
            handed_one(
                old(self).spec_handed(),
                final(self).spec_handed(),
                AdminMessage::Logon,
                old(self).spec_session().spec_config(),
                old(self).spec_session().spec_outbound(),
            ),
            r is Ok ==> delivered(old(self).spec_transport(), final(self).spec_transport(), final(self).spec_handed()),
    {
        self.session.on_connected();
        let ghost s1 = self.session;
        let r = self.send_logon();
        assert(on_connected_step(old(self).spec_session(), s1));
        r
    }

    /// Handle an inbound Logon: the session becomes connected and active, and our Logon
    /// answers it.
    pub fn handle_inbound_logon(&mut self) -> (r: Result<(), std::io::Error>)
        requires
            old(self).wf(),
            config_fits(old(self).spec_session()),
        ensures
            final(self).wf(),
            final(self).spec_pending() == old(self).spec_pending(),
            final(self).spec_should_stop() == old(self).spec_should_stop(),
            final(self).spec_parser() == old(self).spec_parser(),
            exists|s1: Session, s2: Session|
                #![trigger on_connected_step(old(self).spec_session(), s1), on_logon_step(s1, s2)]
                on_connected_step(old(self).spec_session(), s1) && on_logon_step(s1, s2) && sent_step(
                    s2,
                    final(self).spec_session(),
                    r is Ok,
                ),
            handed_one(
                old(self).spec_handed(),
                final(self).spec_handed(),
                AdminMessage::Logon,
                old(self).spec_session().spec_config(),
                old(self).spec_session().spec_outbound(),
            ),
            r is Ok ==> delivered(old(self).spec_transport(), final(self).spec_transport(), final(self).spec_handed()),
    {
        self.session.on_connected();
        let ghost s1 = self.session;
        self.session.on_logon();
        let ghost s2 = self.session;
        let r = self.send_logon();
        assert(on_connected_step(old(self).spec_session(), s1) && on_logon_step(s1, s2));
        r
    }

    /// Send a Logout to end the session.
    pub fn initiate_logout(&mut self) -> (r: Result<(), std::io::Error>)
        requires
            old(self).wf(),
            config_fits(old(self).spec_session()),
        ensures
            final(self).wf(),
            final(self).spec_pending() == old(self).spec_pending(),
            final(self).spec_should_stop() == old(self).spec_should_stop(),
            final(self).spec_parser() == old(self).spec_parser(),
            logout_sent_step(old(self).spec_session(), final(self).spec_session(), r is Ok),
            handed_one(
                old(self).spec_handed(),
                final(self).spec_handed(),
                AdminMessage::Logout,
                old(self).spec_session().spec_config(),
                old(self).spec_session().spec_outbound(),
            ),
            r is Ok ==> delivered(old(self).spec_transport(), final(self).spec_transport(), final(self).spec_handed()),
    {
        self.send_logout()
    }

    /// Drive the heartbeat timer: a Heartbeat is sent when one is due on an active session,
    /// and the engine stops when the counterparty has timed out.
    pub fn heartbeat_tick(&mut self, now: Instant) -> (r: Result<TimerStep, std::io::Error>)
        requires
            old(self).wf(),
            config_fits(old(self).spec_session()),
            old(self).spec_session().spec_state() == SessionState::Active ==> duration_nanos(
                old(self).spec_session().spec_config().heartbeat_interval,
            ) / NANOS_PER_SEC + 5 <= u64::MAX,
        ensures
            final(self).wf(),
            final(self).spec_pending() == old(self).spec_pending(),
            final(self).spec_parser() == old(self).spec_parser(),
            exists|s1: Session, a: SessionAction|
                #[trigger] check_heartbeat_step(old(self).spec_session(), s1, now, a) && match a {
                    SessionAction::Disconnect => r matches Ok(TimerStep::Stop) && final(self).spec_should_stop()
                        && final(self).spec_session() == s1 && final(self).spec_handed() == old(self).spec_handed(),
                    SessionAction::Send(_) => final(self).spec_should_stop() == old(self).spec_should_stop() && if s1.spec_state()
                        == SessionState::Active {
                        &&& !(r matches Ok(TimerStep::Stop))
                        &&& sent_step(s1, final(self).spec_session(), r is Ok)
                        &&& r is Ok ==> delivered(old(self).spec_transport(), final(self).spec_transport(), final(self).spec_handed())
                        &&& handed_one(
                            old(self).spec_handed(),
                            final(self).spec_handed(),
                            AdminMessage::Heartbeat,
                            s1.spec_config(),
                            s1.spec_outbound(),
                        )
                    } else {
                        &&& r matches Ok(TimerStep::Continue)
                        &&& final(self).spec_session() == s1
                        &&& final(self).spec_handed() == old(self).spec_handed()
                    },
                    SessionAction::Nothing => r matches Ok(TimerStep::Continue) && final(self).spec_should_stop()
                        == old(self).spec_should_stop() && final(self).spec_session() == s1 && final(self).spec_handed()
                        == old(self).spec_handed(),
                },
    {
        let action = self.session.check_heartbeat(now);
        let ghost s1 = self.session;
        let r = match action {
            SessionAction::Send(_) => {
                if self.session.state() == SessionState::Active {
                    match self.send_heartbeat() {
                        Ok(()) => Ok(TimerStep::Continue),
                        Err(e) => Err(e),
                    }
                } else {
                    Ok(TimerStep::Continue)
                }
            },
            SessionAction::Disconnect => {
                self.should_stop = true;
                Ok(TimerStep::Stop)
            },
            SessionAction::Nothing => Ok(TimerStep::Continue),
        };
        assert(check_heartbeat_step(old(self).spec_session(), s1, now, action));
        r
    }

    /// Receive from the transport into `scratch` and buffer what arrived. A lost
    /// connection disconnects the session and stops the engine; other errors are returned.
    pub fn receive(&mut self, scratch: &mut [u8]) -> (r: Result<ReceiveStep, std::io::Error>)
        requires
            old(self).wf(),
            old(self).spec_pending().len() + old(scratch)@.len() <= usize::MAX,
        ensures
            final(self).wf(),
            final(self).spec_parser() == old(self).spec_parser(),
            final(self).spec_received() == old(self).spec_received().push(received_entry(r, final(scratch)@)),
            match r {
                Ok(ReceiveStep::Nothing) => final(self).spec_pending() == old(self).spec_pending()
                    && final(self).spec_session() == old(self).spec_session()
                    && final(self).spec_should_stop() == old(self).spec_should_stop(),
                Ok(ReceiveStep::Data(n)) => 0 < n <= final(scratch)@.len() && final(self).spec_pending()
                    == old(self).spec_pending() + final(scratch)@.take(n as int)
                    && final(self).spec_session() == old(self).spec_session()
                    && final(self).spec_should_stop() == old(self).spec_should_stop(),
                Ok(ReceiveStep::Closed) => final(self).spec_should_stop() && on_disconnected_step(
                    old(self).spec_session(),
                    final(self).spec_session(),
                ),
                Err(e) => !spec_connection_lost(io_failure_of(e)) && final(self).spec_session() == old(self).spec_session()
                    && final(self).spec_pending() == old(self).spec_pending()
                    && final(self).spec_should_stop() == old(self).spec_should_stop(),
            },
            final(self).spec_handed() == old(self).spec_handed(),
            final(self).spec_close_requested() == old(self).spec_close_requested(),
    {
        let ghost log = self.received@;
        match self.transport.recv(scratch) {
            Ok(n) => {
                proof {
                    self.received@ = log.push(Some(scratch@.take(n as int)));
                }
                if n == 0 {
                    assert(scratch@.take(0) =~= Seq::<u8>::empty());
                    return Ok(ReceiveStep::Nothing);
                }
                self.append_received(scratch, n);
                Ok(ReceiveStep::Data(n))
            },
            Err(e) => {
                proof {
                    self.received@ = log.push(None);
                }
                if connection_lost(io_failure(&e)) {
                    self.session.on_disconnected();
                    self.should_stop = true;
                    Ok(ReceiveStep::Closed)
                } else {
                    Err(e)
                }
            },
        }
    }

    /// Append the first `n` bytes of `data` to the receive buffer, doubling the buffer's
    /// size past the new end when they do not fit.
    fn append_received(&mut self, data: &[u8], n: usize)
        requires
            old(self).wf(),
            n <= data@.len(),
            old(self).spec_pending().len() + n <= usize::MAX,
        ensures
            final(self).wf(),
            final(self).spec_pending() == old(self).spec_pending() + data@.take(n as int),
            final(self).spec_session() == old(self).spec_session(),
            final(self).spec_parser() == old(self).spec_parser(),
            final(self).spec_should_stop() == old(self).spec_should_stop(),
            final(self).spec_handed() == old(self).spec_handed(),
            final(self).spec_received() == old(self).spec_received(),
            final(self).spec_close_requested() == old(self).spec_close_requested(),
    {
        let ghost before = self.recv_buf@.take(self.recv_pos as int);
        let pos = self.recv_pos;
        if n > self.recv_buf.len() - pos {
            let end = pos + n;
            let target = if end <= usize::MAX / 2 {
                end * 2
            } else {
                end
            };
            while self.recv_buf.len() < target
                invariant
                    self.recv_buf@.len() <= target,
                    self.session == old(self).session,
                    self.parser == old(self).parser,
                    self.should_stop == old(self).should_stop,
                    self.handed == old(self).handed,
                    self.received == old(self).received,
                    self.close_requested == old(self).close_requested,
                    before.len() == pos,
                    pos <= self.recv_buf@.len(),
                    self.recv_buf@.take(pos as int) == before,
                decreases target - self.recv_buf@.len(),
            {
                self.recv_buf.push(0);
                assert(self.recv_buf@.take(pos as int) =~= before);
            }
        }
        let blen = self.recv_buf.len();
        let mut i: usize = 0;
        while i < n
            invariant
                blen == self.recv_buf@.len(),
                i <= n,
                n <= data@.len(),
                pos + n <= self.recv_buf@.len(),
                before.len() == pos,
                self.session == old(self).session,
                self.parser == old(self).parser,
                self.should_stop == old(self).should_stop,
                self.handed == old(self).handed,
                    self.received == old(self).received,
                    self.close_requested == old(self).close_requested,
                self.recv_buf@.take(pos + i) == before + data@.take(i as int),
            decreases n - i,
        {
            let ghost prev = self.recv_buf@;
            self.recv_buf.set(pos + i, data[i]);
            assert(self.recv_buf@.take(pos + i) =~= prev.take(pos + i));
            assert(self.recv_buf@.take(pos + i + 1) =~= prev.take(pos + i).push(data@[i as int]));
            assert(data@.take(i + 1) =~= data@.take(i as int).push(data@[i as int]));
            assert(self.recv_buf@.take(pos + i + 1) =~= before + data@.take(i + 1));
            i = i + 1;
        }
        self.recv_pos = pos + n;
    }

    /// Take the next complete message off the receive buffer, if one is buffered: the
    /// buffered bytes up to the boundary that the parser finds.
    pub fn next_message(&mut self) -> (r: Option<Vec<u8>>)
        requires
            old(self).wf(),
        ensures
            final(self).wf(),
            final(self).spec_session() == old(self).spec_session(),
            final(self).spec_parser() == old(self).spec_parser(),
            final(self).spec_should_stop() == old(self).spec_should_stop(),
            final(self).spec_handed() == old(self).spec_handed(),
            match first_boundary(old(self).spec_pending(), 0) {
                None => r is None && final(self).spec_pending() == old(self).spec_pending(),
                Some(b) => r matches Some(m) && m@ == old(self).spec_pending().take(b as int)
                    && final(self).spec_pending() == old(self).spec_pending().skip(b as int),
            },
    {
        let ghost pending = self.recv_buf@.take(self.recv_pos as int);
        let data = vstd::slice::slice_subrange(self.recv_buf.as_slice(), 0, self.recv_pos);
        let boundary = match self.parser.find_message_boundary(data) {
            Some(b) => b,
            None => return None,
        };
        proof {
            crate::parser::lemma_first_boundary_bound(data@, 0);
        }
        let msg = vstd::slice::slice_to_vec(vstd::slice::slice_subrange(data, 0, boundary));
        let pos = self.recv_pos;
        let mut i: usize = 0;
        while i < pos - boundary
            invariant
                boundary <= pos <= self.recv_buf@.len(),
                i <= pos - boundary,
                self.session == old(self).session,
                self.parser == old(self).parser,
                self.should_stop == old(self).should_stop,
                self.handed == old(self).handed,
                forall|j: int| 0 <= j < i ==> self.recv_buf@[j] == pending[boundary + j],
                forall|j: int| i + boundary <= j < pos ==> self.recv_buf@[j] == pending[j],
                pending.len() == pos,
            decreases pos - boundary - i,
        {
            let b = self.recv_buf[boundary + i];
            self.recv_buf.set(i, b);
            i = i + 1;
        }
        self.recv_pos = pos - boundary;
        assert(self.recv_buf@.take(self.recv_pos as int) =~= pending.skip(boundary as int));
        Some(msg)
    }

    /// Record an inbound message: it counts as received, its sequence number is checked,
    /// and its type decides what it calls for. `None` when it has no MsgType.
    pub fn on_inbound(&mut self, view: &MessageView) -> (r: Option<Dispatch>)
        requires
            old(self).wf(),
        ensures
            final(self).wf(),
            final(self).spec_pending() == old(self).spec_pending(),
            final(self).spec_should_stop() == old(self).spec_should_stop(),
            final(self).spec_handed() == old(self).spec_handed(),
            exists|s1: Session|
                {
                    &&& #[trigger] on_message_received_step(old(self).spec_session(), s1)
                    &&& (match inbound_seq_num(*view) {
                        Some(seq) => exists|v: Result<(), (u64, u64)>|
                            validate_inbound_seq_step(s1, final(self).spec_session(), seq, v),
                        None => final(self).spec_session() == s1,
                    })
                },
            match view.spec_msg_type() {
                Some(t) => r == Some(
                    spec_dispatch(
                        final(self).spec_session().spec_config().role,
                        final(self).spec_session().spec_state(),
                        t,
                    ),
                ),
                None => r is None,
            },
    {
        self.session.on_message_received();
        let ghost s1 = self.session;
        assert(on_message_received_step(old(self).spec_session(), s1));
        let seq_field = view.msg_seq_num();
        match seq_field {
            Some(seq) => {
                let v = self.session.validate_inbound_seq(seq);
                assert(validate_inbound_seq_step(s1, self.session, seq, v));
            },
            None => {},
        }
        assert(seq_field == inbound_seq_num(*view));
        assert(on_message_received_step(old(self).spec_session(), s1) && match inbound_seq_num(*view) {
            Some(seq) => exists|v: Result<(), (u64, u64)>|
                validate_inbound_seq_step(s1, self.session, seq, v),
            None => self.session == s1,
        });
        match view.msg_type() {
            Some(t) => Some(dispatch(self.session.config().role, self.session.state(), t)),
            None => None,
        }
    }

    /// Answer an accepted Logon: connect the session if it is disconnected, log it on and
    /// send our Logon.
    pub fn accept_logon(&mut self) -> (r: Result<(), std::io::Error>)
        requires
            old(self).wf(),
            config_fits(old(self).spec_session()),
        ensures
            final(self).wf(),
            final(self).spec_pending() == old(self).spec_pending(),
            final(self).spec_should_stop() == old(self).spec_should_stop(),
            final(self).spec_parser() == old(self).spec_parser(),
            exists|s1: Session, s2: Session|
                #![trigger on_logon_step(s1, s2)]
                {
                    &&& old(self).spec_session().spec_state() == SessionState::Disconnected ==> on_connected_step(
                        old(self).spec_session(),
                        s1,
                    )
                    &&& old(self).spec_session().spec_state() != SessionState::Disconnected ==> s1 == old(
                        self,
                    ).spec_session()
                    &&& on_logon_step(s1, s2)
                    &&& sent_step(s2, final(self).spec_session(), r is Ok)
                },
            handed_one(
                old(self).spec_handed(),
                final(self).spec_handed(),
                AdminMessage::Logon,
                old(self).spec_session().spec_config(),
                old(self).spec_session().spec_outbound(),
            ),
            r is Ok ==> delivered(old(self).spec_transport(), final(self).spec_transport(), final(self).spec_handed()),
    {
        if self.session.state() == SessionState::Disconnected {
            self.session.on_connected();
        }
        let ghost s1 = self.session;
        self.session.on_logon();
        let ghost s2 = self.session;
        let r = self.send_logon();
        assert(on_logon_step(s1, s2));
        r
    }

    /// Our Logon was answered: the session is active.
    pub fn confirm_logon(&mut self)
        requires
            old(self).wf(),
        ensures
            final(self).wf(),
            final(self).spec_pending() == old(self).spec_pending(),
            final(self).spec_should_stop() == old(self).spec_should_stop(),
            final(self).spec_handed() == old(self).spec_handed(),
            on_logon_step(old(self).spec_session(), final(self).spec_session()),
    {
        self.session.on_logon();
    }

    /// A Logout arrived: answer it with ours unless ours went out already, then the session
    /// is disconnected and the engine stops.
    pub fn logout_received(&mut self) -> (r: Result<(), std::io::Error>)
        requires
            old(self).wf(),
            config_fits(old(self).spec_session()),
        ensures
            final(self).wf(),
            final(self).spec_pending() == old(self).spec_pending(),
            final(self).spec_parser() == old(self).spec_parser(),
            old(self).spec_session().spec_state() == SessionState::LogoutSent ==> {
                &&& r is Ok
                &&& final(self).spec_should_stop()
                &&& on_disconnected_step(old(self).spec_session(), final(self).spec_session())
                &&& final(self).spec_handed() == old(self).spec_handed()
            },
            old(self).spec_session().spec_state() != SessionState::LogoutSent ==> {
                &&& handed_one(
                    old(self).spec_handed(),
                    final(self).spec_handed(),
                    AdminMessage::Logout,
                    old(self).spec_session().spec_config(),
                    old(self).spec_session().spec_outbound(),
                )
                &&& r is Ok ==> delivered(old(self).spec_transport(), final(self).spec_transport(), final(self).spec_handed())
                &&& r is Ok ==> final(self).spec_should_stop() && exists|s1: Session|
                    #[trigger] logout_sent_step(old(self).spec_session(), s1, true) && on_disconnected_step(
                        s1,
                        final(self).spec_session(),
                    )
                &&& r is Err ==> final(self).spec_should_stop() == old(self).spec_should_stop()
                    && logout_sent_step(old(self).spec_session(), final(self).spec_session(), false)
            },
    {
        if self.session.state() != SessionState::LogoutSent {
            match self.send_logout() {
                Ok(()) => {},
                Err(e) => return Err(e),
            }
        }
        let ghost s1 = self.session;
        self.session.on_disconnected();
        self.should_stop = true;
        assert(old(self).spec_session().spec_state() != SessionState::LogoutSent ==> logout_sent_step(
            old(self).spec_session(),
            s1,
            true,
        ));
        Ok(())
    }

    /// After a batch of messages: stop when the session is disconnected; when a Logout was
    /// requested, send it (ignoring a failed send), disconnect and stop.
    pub fn finish_batch(&mut self)
        requires
            old(self).wf(),
            config_fits(old(self).spec_session()),
        ensures
            final(self).wf(),
            final(self).spec_pending() == old(self).spec_pending(),
            final(self).spec_parser() == old(self).spec_parser(),
            old(self).spec_session().spec_state() == SessionState::Disconnected ==> {
                &&& final(self).spec_should_stop()
                &&& final(self).spec_session() == old(self).spec_session()
                &&& final(self).spec_handed() == old(self).spec_handed()
            },
            old(self).spec_session().spec_state() == SessionState::LogoutSent ==> {
                &&& final(self).spec_should_stop()
                &&& handed_one(
                    old(self).spec_handed(),
                    final(self).spec_handed(),
                    AdminMessage::Logout,
                    old(self).spec_session().spec_config(),
                    old(self).spec_session().spec_outbound(),
                )
                &&& exists|s1: Session|
                    #[trigger] next_outbound_seq_num_step(old(self).spec_session(), s1, old(self).spec_session().spec_outbound())
                        && on_disconnected_step(s1, final(self).spec_session())
            },
            !(old(self).spec_session().spec_state() == SessionState::Disconnected || old(self).spec_session().spec_state() == SessionState::LogoutSent) ==> *final(self) == *old(self),
    {
        match self.session.state() {
            SessionState::Disconnected => {
                self.should_stop = true;
            },
            SessionState::LogoutSent => {
                let _ = self.hand_admin(AdminMessage::Logout);
                let ghost s1 = self.session;
                self.session.on_disconnected();
                self.should_stop = true;
                assert(next_outbound_seq_num_step(old(self).spec_session(), s1, old(self).spec_session().spec_outbound()));
            },
            _ => {},
        }
    }

    /// Close the transport, ignoring a failure.
    pub fn close_transport(&mut self)
        requires
            old(self).wf(),
        ensures
            final(self).wf(),
            final(self).spec_session() == old(self).spec_session(),
            final(self).spec_pending() == old(self).spec_pending(),
            final(self).spec_should_stop() == old(self).spec_should_stop(),
            final(self).spec_handed() == old(self).spec_handed(),
            final(self).spec_received() == old(self).spec_received(),
            final(self).spec_close_requested(),
    {
        let _ = self.transport.close();
        proof {
            self.close_requested@ = true;
        }
    }
}

} // verus!
