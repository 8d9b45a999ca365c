use std::time::Duration;
use velocitas_fix::client::{FixClient, FixClientConfig};
use velocitas_fix::parser::{FixParser, ParseError};
use velocitas_fix::serializer::{build_heartbeat, build_logon};
use velocitas_fix::server::{acceptor_session_config, check_logon, FixServer, FixServerConfig, LogonCheck, LogonRejection};
use velocitas_fix::session::{SequenceResetPolicy, SessionRole};

fn logon_bytes(sender: &[u8]) -> Vec<u8> {
    let mut buf = [0u8; 512];
    let n = build_logon(&mut buf, b"FIX.4.4", sender, b"VELOCITAS", 1, b"20260321-10:00:00.000", 30);
    buf[..n].to_vec()
}

#[test]
fn server_default_config() {
    let c = FixServerConfig::default();
    assert_eq!(c.bind_address, "0.0.0.0");
    assert_eq!(c.port, 9878);
    assert_eq!(c.sender_comp_id, "VELOCITAS");
    assert_eq!(c.fix_version, "FIX.4.4");
    assert_eq!(c.heartbeat_interval, Duration::from_secs(30));
    assert!(c.allowed_comp_ids.is_empty());
    assert_eq!(c.max_connections, 256);
    assert_eq!(c.connection_pool_size, 64);
    let server = FixServer::new(c);
    assert_eq!(server.config().port, 9878);
}

#[test]
fn server_accepts_complete_logon() {
    let parser = FixParser::new();
    let logon = logon_bytes(b"CLIENT-A");
    match check_logon(&parser, &logon) {
        LogonCheck::Logon { end, comp_id } => {
            assert_eq!(end, logon.len());
            assert_eq!(comp_id, "CLIENT-A");
        }
        other => panic!("expected a Logon, got {:?}", other),
    }
    let mut longer = logon.clone();
    longer.extend_from_slice(b"8=FIX");
    assert!(matches!(check_logon(&parser, &longer), LogonCheck::Logon { end, .. } if end == logon.len()));
}

#[test]
fn server_waits_for_whole_message() {
    let parser = FixParser::new();
    let logon = logon_bytes(b"CLIENT-A");
    assert_eq!(check_logon(&parser, &logon[..logon.len() - 3]), LogonCheck::Incomplete);
    assert_eq!(check_logon(&parser, b""), LogonCheck::Incomplete);
}

#[test]
fn server_rejects_other_first_messages() {
    let parser = FixParser::new();
    let mut buf = [0u8; 512];
    let n = build_heartbeat(&mut buf, b"FIX.4.4", b"CLIENT-A", b"VELOCITAS", 1, b"20260321-10:00:00.000");
    assert_eq!(check_logon(&parser, &buf[..n]), LogonCheck::Rejected(LogonRejection::NotLogon(b"0".to_vec())));

    let mut bad = logon_bytes(b"CLIENT-A");
    let len = bad.len();
    bad[len - 2] = if bad[len - 2] == b'9' { b'8' } else { b'9' };
    assert_eq!(check_logon(&parser, &bad), LogonCheck::Rejected(LogonRejection::Parse(ParseError::InvalidChecksum)));
}

#[test]
fn server_session_for_accepted_connection() {
    let c = FixServerConfig::default();
    let s = acceptor_session_config(&c, 42, "CLIENT-A");
    assert_eq!(s.session_id, "ACC-42");
    assert_eq!(s.fix_version, "FIX.4.4");
    assert_eq!(s.sender_comp_id, "VELOCITAS");
    assert_eq!(s.target_comp_id, "CLIENT-A");
    assert_eq!(s.role, SessionRole::Acceptor);
    assert_eq!(s.heartbeat_interval, Duration::from_secs(30));
    assert_eq!(s.reconnect_interval, Duration::from_secs(0));
    assert_eq!(s.max_reconnect_attempts, 0);
    assert_eq!(s.sequence_reset_policy, SequenceResetPolicy::Daily);
    assert!(s.validate_comp_ids);
    assert_eq!(s.max_msg_rate, 50_000);
}

#[test]
fn client_session_configuration() {
    let mut c = FixClientConfig::default();
    assert_eq!(c.remote_host, "127.0.0.1");
    assert_eq!(c.remote_port, 9878);
    assert_eq!(c.reconnect_attempts, 3);
    c.sender_comp_id = "BANK_OMS".to_string();
    c.target_comp_id = "NYSE".to_string();
    let client = FixClient::new(c);
    let s = client.session_config();
    assert_eq!(s.session_id, "BANK_OMS-NYSE");
    assert_eq!(s.role, SessionRole::Initiator);
    assert_eq!(s.reconnect_interval, Duration::from_secs(1));
    assert_eq!(s.max_reconnect_attempts, 3);
    assert_eq!(s.max_msg_rate, 50_000);
}
