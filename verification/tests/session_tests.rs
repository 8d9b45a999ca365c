use velocitas_fix::session::{SequenceResetPolicy, Session, SessionConfig, SessionRole, SessionState};
use std::time::{Duration, Instant};

fn test_config() -> SessionConfig {
    SessionConfig {
        session_id: "TEST-1".to_string(),
        fix_version: "FIX.4.4".to_string(),
        sender_comp_id: "SENDER".to_string(),
        target_comp_id: "TARGET".to_string(),
        role: SessionRole::Initiator,
        heartbeat_interval: Duration::from_secs(30),
        reconnect_interval: Duration::from_secs(1),
        max_reconnect_attempts: 5,
        sequence_reset_policy: SequenceResetPolicy::Daily,
        validate_comp_ids: true,
        max_msg_rate: 1000,
    }
}

#[test]
fn test_session_initial_state() {
    let session = Session::new(test_config());
    assert_eq!(session.state(), SessionState::Disconnected);
    assert_eq!(session.expected_inbound_seq_num(), 1);
    assert_eq!(session.current_outbound_seq_num(), 1);
}

#[test]
fn test_session_connect_logon_flow() {
    let mut session = Session::new(test_config());

    session.on_connected();
    assert_eq!(session.state(), SessionState::LogonSent);

    session.on_logon();
    assert_eq!(session.state(), SessionState::Active);
}

#[test]
fn test_session_sequence_numbers() {
    let mut session = Session::new(test_config());
    session.on_connected();
    session.on_logon();

    assert_eq!(session.next_outbound_seq_num(), 1);
    assert_eq!(session.next_outbound_seq_num(), 2);
    assert_eq!(session.next_outbound_seq_num(), 3);

    assert!(session.validate_inbound_seq(1).is_ok());
    assert!(session.validate_inbound_seq(2).is_ok());
    assert_eq!(session.expected_inbound_seq_num(), 3);
}

#[test]
fn test_session_gap_detection() {
    let mut session = Session::new(test_config());
    session.on_connected();
    session.on_logon();

    assert!(session.validate_inbound_seq(1).is_ok());
    // Gap: expected 2, received 5
    let result = session.validate_inbound_seq(5);
    assert_eq!(result, Err((2, 5)));
    assert_eq!(session.state(), SessionState::Resending);
}

#[test]
fn test_session_disconnect_reconnect() {
    let mut session = Session::new(test_config());
    session.on_connected();
    session.on_logon();
    session.on_disconnected();

    assert_eq!(session.state(), SessionState::Disconnected);
    assert!(session.should_reconnect());

    session.on_reconnect_attempt();
    assert_eq!(session.state(), SessionState::Connecting);
}

#[test]
fn test_session_max_reconnect_attempts() {
    let mut session = Session::new(test_config());

    for _ in 0..5 {
        session.on_reconnect_attempt();
        session.on_disconnected();
    }

    assert!(!session.should_reconnect());
}

#[test]
fn test_session_reset_sequences() {
    let mut session = Session::new(test_config());
    session.next_outbound_seq_num();
    session.next_outbound_seq_num();
    assert_eq!(session.current_outbound_seq_num(), 3);

    session.reset_sequences();
    assert_eq!(session.current_outbound_seq_num(), 1);
    assert_eq!(session.expected_inbound_seq_num(), 1);
}

#[test]
fn test_session_rate_limit() {
    let mut config = test_config();
    config.max_msg_rate = 3;
    let mut session = Session::new(config);

    assert!(session.check_rate_limit());
    assert!(session.check_rate_limit());
    assert!(session.check_rate_limit());
    assert!(!session.check_rate_limit());
}

#[test]
fn test_acceptor_session() {
    let mut config = test_config();
    config.role = SessionRole::Acceptor;
    let mut session = Session::new(config);

    session.on_connected();
    assert_eq!(session.state(), SessionState::Connecting);
    assert!(!session.should_reconnect());
}
