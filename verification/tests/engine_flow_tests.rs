use std::io;
use std::time::Duration;
use velocitas_fix::engine::{dispatch, Dispatch, FixEngine, ReceiveStep};
use velocitas_fix::parser::FixParser;
use velocitas_fix::serializer::{build_heartbeat, build_logon, build_logout, FixSerializer};
use velocitas_fix::session::{SequenceResetPolicy, Session, SessionConfig, SessionRole, SessionState};
use velocitas_fix::transport::{Transport, TransportEvent};

struct ScriptedTransport {
    sent: Vec<Vec<u8>>,
    inbox: Vec<Vec<u8>>,
    connected: bool,
}

impl ScriptedTransport {
    fn new() -> Self {
        ScriptedTransport { sent: Vec::new(), inbox: Vec::new(), connected: true }
    }
}

impl Transport for ScriptedTransport {
    fn connect(&mut self, _address: &str, _port: u16) -> io::Result<()> {
        self.connected = true;
        Ok(())
    }
    fn bind(&mut self, _address: &str, _port: u16) -> io::Result<()> {
        Ok(())
    }
    fn send(&mut self, data: &[u8]) -> io::Result<usize> {
        self.sent.push(data.to_vec());
        Ok(data.len())
    }
    fn recv(&mut self, buffer: &mut [u8]) -> io::Result<usize> {
        if self.inbox.is_empty() {
            return Ok(0);
        }
        let m = self.inbox.remove(0);
        buffer[..m.len()].copy_from_slice(&m);
        Ok(m.len())
    }
    fn close(&mut self) -> io::Result<()> {
        self.connected = false;
        Ok(())
    }
    fn poll(&mut self) -> io::Result<Option<TransportEvent>> {
        Ok(None)
    }
    fn is_connected(&self) -> bool {
        self.connected
    }
}

fn config(role: SessionRole) -> SessionConfig {
    SessionConfig {
        session_id: "ENG-1".to_string(),
        fix_version: "FIX.4.4".to_string(),
        sender_comp_id: "BUYSIDE".to_string(),
        target_comp_id: "SELLSIDE".to_string(),
        role,
        heartbeat_interval: Duration::from_secs(30),
        reconnect_interval: Duration::from_secs(1),
        max_reconnect_attempts: 3,
        sequence_reset_policy: SequenceResetPolicy::Daily,
        validate_comp_ids: true,
        max_msg_rate: 1000,
    }
}

fn counterparty_logon(seq: u64) -> Vec<u8> {
    let mut buf = [0u8; 512];
    let n = build_logon(&mut buf, b"FIX.4.4", b"SELLSIDE", b"BUYSIDE", seq, b"20260321-10:00:00.000", 30);
    buf[..n].to_vec()
}

#[test]
fn engine_dispatch_table() {
    assert_eq!(dispatch(SessionRole::Acceptor, SessionState::Disconnected, b"A"), Dispatch::AcceptLogon);
    assert_eq!(dispatch(SessionRole::Acceptor, SessionState::Connecting, b"A"), Dispatch::AcceptLogon);
    assert_eq!(dispatch(SessionRole::Initiator, SessionState::LogonSent, b"A"), Dispatch::LogonConfirmed);
    assert_eq!(dispatch(SessionRole::Initiator, SessionState::Active, b"A"), Dispatch::IgnoredLogon);
    assert_eq!(dispatch(SessionRole::Initiator, SessionState::Active, b"0"), Dispatch::Heartbeat);
    assert_eq!(dispatch(SessionRole::Initiator, SessionState::Active, b"1"), Dispatch::TestRequest);
    assert_eq!(dispatch(SessionRole::Initiator, SessionState::Active, b"5"), Dispatch::Logout);
    assert_eq!(dispatch(SessionRole::Initiator, SessionState::Active, b"D"), Dispatch::Application);
    assert_eq!(dispatch(SessionRole::Initiator, SessionState::Active, b"AE"), Dispatch::Application);
}

#[test]
fn engine_initiator_logon_exchange() {
    let mut engine = FixEngine::new_initiator(ScriptedTransport::new(), Session::new(config(SessionRole::Initiator)));
    engine.start_initiator().unwrap();
    assert_eq!(engine.session().state(), SessionState::LogonSent);
    assert_eq!(engine.session().current_outbound_seq_num(), 2);
    {
        let (transport, _) = engine.parts_mut();
        assert_eq!(transport.sent.len(), 1);
        let parser = FixParser::new();
        let (view, consumed) = parser.parse(&transport.sent[0]).unwrap();
        assert_eq!(consumed, transport.sent[0].len());
        assert_eq!(view.msg_type(), Some(b"A".as_slice()));
        assert_eq!(view.msg_seq_num(), Some(1));
        assert_eq!(view.sender_comp_id(), Some("BUYSIDE"));
        assert_eq!(view.get_field_i64(108), Some(30));
        transport.inbox.push(counterparty_logon(1));
    }
    let mut scratch = vec![0u8; 8192];
    let step = engine.receive(&mut scratch).unwrap();
    assert!(matches!(step, ReceiveStep::Data(_)));
    let msg = engine.next_message().expect("a whole Logon is buffered");
    assert!(engine.next_message().is_none());
    let parser = FixParser::new();
    let (view, _) = parser.parse(&msg).unwrap();
    assert_eq!(engine.on_inbound(&view), Some(Dispatch::LogonConfirmed));
    engine.confirm_logon();
    assert_eq!(engine.session().state(), SessionState::Active);
    assert_eq!(engine.session().expected_inbound_seq_num(), 2);
}

#[test]
fn engine_frames_split_and_joined_messages() {
    let mut engine = FixEngine::new_initiator(ScriptedTransport::new(), Session::new(config(SessionRole::Initiator)));
    let first = counterparty_logon(1);
    let mut hb = [0u8; 256];
    let n = build_heartbeat(&mut hb, b"FIX.4.4", b"SELLSIDE", b"BUYSIDE", 2, b"20260321-10:00:01.000");
    let mut joined = first[10..].to_vec();
    joined.extend_from_slice(&hb[..n]);
    {
        let (transport, _) = engine.parts_mut();
        transport.inbox.push(first[..10].to_vec());
        transport.inbox.push(joined);
    }
    let mut scratch = vec![0u8; 8192];
    engine.receive(&mut scratch).unwrap();
    assert!(engine.next_message().is_none());
    engine.receive(&mut scratch).unwrap();
    assert_eq!(engine.next_message().unwrap(), first);
    assert_eq!(engine.next_message().unwrap(), hb[..n].to_vec());
    assert!(engine.next_message().is_none());
    assert!(matches!(engine.receive(&mut scratch).unwrap(), ReceiveStep::Nothing));
}

#[test]
fn engine_acceptor_answers_logon_and_logout() {
    let mut engine = FixEngine::new_acceptor(ScriptedTransport::new(), Session::new(config(SessionRole::Acceptor)));
    let logon = counterparty_logon(1);
    let parser = FixParser::new();
    let (view, _) = parser.parse(&logon).unwrap();
    assert_eq!(engine.on_inbound(&view), Some(Dispatch::AcceptLogon));
    engine.accept_logon().unwrap();
    assert_eq!(engine.session().state(), SessionState::Active);

    let mut out = [0u8; 256];
    let n = build_logout(&mut out, b"FIX.4.4", b"SELLSIDE", b"BUYSIDE", 2, b"20260321-10:00:02.000");
    let (view, _) = parser.parse(&out[..n]).unwrap();
    assert_eq!(engine.on_inbound(&view), Some(Dispatch::Logout));
    engine.logout_received().unwrap();
    assert!(engine.should_stop());
    assert_eq!(engine.session().state(), SessionState::Disconnected);
    let (transport, _) = engine.parts_mut();
    assert_eq!(transport.sent.len(), 2);
    let (answer, _) = parser.parse(&transport.sent[1]).unwrap();
    assert_eq!(answer.msg_type(), Some(b"5".as_slice()));
}

#[test]
fn engine_finish_batch_sends_requested_logout() {
    let mut engine = FixEngine::new_initiator(ScriptedTransport::new(), Session::new(config(SessionRole::Initiator)));
    engine.start_initiator().unwrap();
    engine.confirm_logon();
    {
        let (_, session) = engine.parts_mut();
        session.on_logout_sent();
    }
    engine.finish_batch();
    assert!(engine.should_stop());
    assert_eq!(engine.session().state(), SessionState::Disconnected);
    let (transport, _) = engine.parts_mut();
    let parser = FixParser::new();
    let (last, _) = parser.parse(transport.sent.last().unwrap()).unwrap();
    assert_eq!(last.msg_type(), Some(b"5".as_slice()));
}

#[test]
fn engine_test_request_dispatches_to_heartbeat() {
    let mut engine = FixEngine::new_initiator(ScriptedTransport::new(), Session::new(config(SessionRole::Initiator)));
    engine.start_initiator().unwrap();
    engine.confirm_logon();
    let mut buf = [0u8; 256];
    let mut ser = FixSerializer::new();
    ser.begin(&mut buf, b"FIX.4.4", b"1");
    ser.add_str(&mut buf, 49, b"SELLSIDE");
    ser.add_str(&mut buf, 56, b"BUYSIDE");
    ser.add_u64(&mut buf, 34, 1);
    ser.add_str(&mut buf, 112, b"PING");
    let n = ser.finalize(&mut buf);
    let parser = FixParser::new();
    let (view, _) = parser.parse(&buf[..n]).unwrap();
    assert_eq!(engine.on_inbound(&view), Some(Dispatch::TestRequest));
    engine.send_heartbeat().unwrap();
    let (transport, _) = engine.parts_mut();
    let (hb, _) = parser.parse(transport.sent.last().unwrap()).unwrap();
    assert_eq!(hb.msg_type(), Some(b"0".as_slice()));
    assert_eq!(hb.msg_seq_num(), Some(2));
}

#[test]
fn engine_initiate_logout_sends_logout() {
    let mut engine = FixEngine::new_initiator(ScriptedTransport::new(), Session::new(config(SessionRole::Initiator)));
    engine.start_initiator().unwrap();
    engine.confirm_logon();
    engine.initiate_logout().unwrap();
    assert_eq!(engine.session().state(), SessionState::LogoutSent);
    assert_eq!(engine.session().current_outbound_seq_num(), 3);
    let (transport, _) = engine.parts_mut();
    let parser = FixParser::new();
    let (last, _) = parser.parse(transport.sent.last().unwrap()).unwrap();
    assert_eq!(last.msg_type(), Some(b"5".as_slice()));
    assert_eq!(last.msg_seq_num(), Some(2));
}
