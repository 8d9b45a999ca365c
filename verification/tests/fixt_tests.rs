use velocitas_fix::message::MessageView;
use velocitas_fix::fixt::{APPL_VER_ID, ApplVerID, DEFAULT_APPL_VER_ID, FIXT_BEGIN_STRING, FixtError, FixtSession, FixtSessionConfig};
use velocitas_fix::tags;
use std::time::{Duration, Instant};
use velocitas_fix::session::{SessionConfig, SessionRole, SessionState, SequenceResetPolicy};
fn fixt_config() -> FixtSessionConfig {
    FixtSessionConfig {
        base: SessionConfig {
            session_id: "FIXT-TEST-1".to_string(),
            fix_version: "FIXT.1.1".to_string(),
            sender_comp_id: "SENDER".to_string(),
            target_comp_id: "TARGET".to_string(),
            role: SessionRole::Initiator,
            heartbeat_interval: Duration::from_secs(30),
            reconnect_interval: Duration::from_secs(1),
            max_reconnect_attempts: 5,
            sequence_reset_policy: SequenceResetPolicy::Daily,
            validate_comp_ids: true,
            max_msg_rate: 1000,
        },
        default_appl_ver_id: ApplVerID::Fix50SP2,
        supported_versions: vec![ApplVerID::Fix50, ApplVerID::Fix50SP1, ApplVerID::Fix50SP2],
    }
}

/// Helper: build a minimal MessageView with the supplied fields.
fn build_msg<'a>(buf: &'a [u8], fields: &[(u32, u32, u16)]) -> MessageView<'a> {
    let mut view = MessageView::new(buf);
    for &(tag, offset, length) in fields {
        view.add_field(tag, offset, length);
    }
    view
}

// -- ApplVerID conversion -----------------------------------------------

#[test]
fn test_appl_ver_id_roundtrip() {
    let all = [
        ApplVerID::Fix27,
        ApplVerID::Fix30,
        ApplVerID::Fix40,
        ApplVerID::Fix41,
        ApplVerID::Fix42,
        ApplVerID::Fix43,
        ApplVerID::Fix44,
        ApplVerID::Fix50,
        ApplVerID::Fix50SP1,
        ApplVerID::Fix50SP2,
    ];

    for ver in &all {
        let bytes = ver.as_bytes();
        let parsed = ApplVerID::from_bytes(bytes).unwrap();
        assert_eq!(*ver, parsed);
    }
}

#[test]
fn test_appl_ver_id_version_strings() {
    assert_eq!(ApplVerID::Fix50SP2.as_fix_version_str(), "FIX.5.0SP2");
    assert_eq!(ApplVerID::Fix44.as_fix_version_str(), "FIX.4.4");
    assert_eq!(ApplVerID::Fix27.as_fix_version_str(), "FIX.2.7");
}

#[test]
fn test_appl_ver_id_invalid() {
    assert_eq!(ApplVerID::from_bytes(b"X"), None);
    assert_eq!(ApplVerID::from_bytes(b""), None);
    assert_eq!(ApplVerID::from_bytes(b"10"), None);
}

// -- FixtSession creation -----------------------------------------------

#[test]
fn test_fixt_begin_string() {
    let session = FixtSession::new(fixt_config());
    assert_eq!(session.config().fix_version, "FIXT.1.1");
}

#[test]
fn test_fixt_is_fixt() {
    let session = FixtSession::new(fixt_config());
    assert!(session.is_fixt());
}

#[test]
fn test_fixt_initial_state() {
    let session = FixtSession::new(fixt_config());
    assert_eq!(session.state(), SessionState::Disconnected);
    assert_eq!(session.negotiated_version(), None);
}

// -- Version negotiation ------------------------------------------------

#[test]
fn test_negotiate_fix50sp2() {
    let mut session = FixtSession::new(fixt_config());
    session.on_connected();

    // Simulate inbound Logon with DefaultApplVerID=9 (FIX.5.0SP2)
    //   "A\x019\x01"  — MsgType at offset 0 len 1, DefaultApplVerID at offset 2 len 1
    let buf = b"A\x019\x01";
    let view = build_msg(buf, &[
        (tags::MSG_TYPE, 0, 1),       // "A"
        (DEFAULT_APPL_VER_ID, 2, 1),  // "9"
    ]);

    let result = session.on_logon_received(&view);
    assert!(result.is_ok());
    assert_eq!(session.negotiated_version(), Some(ApplVerID::Fix50SP2));
    assert_eq!(session.state(), SessionState::Active);
}

#[test]
fn test_negotiate_fix50() {
    let mut session = FixtSession::new(fixt_config());
    session.on_connected();

    let buf = b"A\x017\x01";
    let view = build_msg(buf, &[
        (tags::MSG_TYPE, 0, 1),
        (DEFAULT_APPL_VER_ID, 2, 1),
    ]);

    let result = session.on_logon_received(&view);
    assert!(result.is_ok());
    assert_eq!(session.negotiated_version(), Some(ApplVerID::Fix50));
}

#[test]
fn test_reject_unsupported_version() {
    let mut session = FixtSession::new(fixt_config());
    session.on_connected();

    // DefaultApplVerID = "4" → FIX.4.2, which is not in supported_versions
    let buf = b"A\x014\x01";
    let view = build_msg(buf, &[
        (tags::MSG_TYPE, 0, 1),
        (DEFAULT_APPL_VER_ID, 2, 1),
    ]);

    let result = session.on_logon_received(&view);
    assert_eq!(result, Err(FixtError::UnsupportedApplVerID(b"4".to_vec())));
    assert_eq!(session.negotiated_version(), None);
}

#[test]
fn test_reject_missing_default_appl_ver_id() {
    let mut session = FixtSession::new(fixt_config());
    session.on_connected();

    let buf = b"A\x01";
    let view = build_msg(buf, &[(tags::MSG_TYPE, 0, 1)]);

    let result = session.on_logon_received(&view);
    assert_eq!(result, Err(FixtError::MissingDefaultApplVerID));
}

#[test]
fn test_reject_invalid_appl_ver_id() {
    let mut session = FixtSession::new(fixt_config());
    session.on_connected();

    let buf = b"A\x01X\x01";
    let view = build_msg(buf, &[
        (tags::MSG_TYPE, 0, 1),
        (DEFAULT_APPL_VER_ID, 2, 1),
    ]);

    let result = session.on_logon_received(&view);
    assert_eq!(result, Err(FixtError::InvalidApplVerID(b"X".to_vec())));
}

// -- Logon fields -------------------------------------------------------

#[test]
fn test_build_logon_fields() {
    let session = FixtSession::new(fixt_config());
    let fields = session.build_logon_fields();

    assert_eq!(fields.len(), 1);
    assert_eq!(fields[0].tag, DEFAULT_APPL_VER_ID);
    assert_eq!(fields[0].value, b"9"); // Fix50SP2
}

// -- Application message validation -------------------------------------

#[test]
fn test_validate_appl_ver_session_msg() {
    let mut session = FixtSession::new(fixt_config());
    session.on_connected();

    // Negotiate first
    let buf = b"A\x019\x01";
    let logon = build_msg(buf, &[
        (tags::MSG_TYPE, 0, 1),
        (DEFAULT_APPL_VER_ID, 2, 1),
    ]);
    session.on_logon_received(&logon).unwrap();

    // Session-level Heartbeat — no ApplVerID required, always valid
    let hb_buf = b"0\x01";
    let hb = build_msg(hb_buf, &[(tags::MSG_TYPE, 0, 1)]);
    let result = session.validate_appl_ver(&hb);
    assert!(result.is_ok());
}

#[test]
fn test_validate_appl_ver_app_msg_default() {
    let mut session = FixtSession::new(fixt_config());
    session.on_connected();

    let buf = b"A\x019\x01";
    let logon = build_msg(buf, &[
        (tags::MSG_TYPE, 0, 1),
        (DEFAULT_APPL_VER_ID, 2, 1),
    ]);
    session.on_logon_received(&logon).unwrap();

    // Application-level NewOrderSingle without explicit ApplVerID → uses default
    let nos_buf = b"D\x01";
    let nos = build_msg(nos_buf, &[(tags::MSG_TYPE, 0, 1)]);
    let result = session.validate_appl_ver(&nos);
    assert_eq!(result, Ok(ApplVerID::Fix50SP2));
}

#[test]
fn test_validate_appl_ver_app_msg_explicit() {
    let mut session = FixtSession::new(fixt_config());
    session.on_connected();

    let buf = b"A\x019\x01";
    let logon = build_msg(buf, &[
        (tags::MSG_TYPE, 0, 1),
        (DEFAULT_APPL_VER_ID, 2, 1),
    ]);
    session.on_logon_received(&logon).unwrap();

    // NewOrderSingle with explicit ApplVerID = "7" (FIX.5.0)
    let nos_buf = b"D\x017\x01";
    let nos = build_msg(nos_buf, &[
        (tags::MSG_TYPE, 0, 1),
        (APPL_VER_ID, 2, 1),
    ]);
    let result = session.validate_appl_ver(&nos);
    assert_eq!(result, Ok(ApplVerID::Fix50));
}

#[test]
fn test_validate_appl_ver_unsupported() {
    let mut session = FixtSession::new(fixt_config());
    session.on_connected();

    let buf = b"A\x019\x01";
    let logon = build_msg(buf, &[
        (tags::MSG_TYPE, 0, 1),
        (DEFAULT_APPL_VER_ID, 2, 1),
    ]);
    session.on_logon_received(&logon).unwrap();

    // NewOrderSingle with ApplVerID = "4" (FIX.4.2, not supported)
    let nos_buf = b"D\x014\x01";
    let nos = build_msg(nos_buf, &[
        (tags::MSG_TYPE, 0, 1),
        (APPL_VER_ID, 2, 1),
    ]);
    let result = session.validate_appl_ver(&nos);
    assert_eq!(result, Err(FixtError::UnsupportedApplVerID(b"4".to_vec())));
}

// -- Full lifecycle -----------------------------------------------------

#[test]
fn test_fixt_lifecycle() {
    let mut session = FixtSession::new(fixt_config());

    // 1. Disconnected
    assert_eq!(session.state(), SessionState::Disconnected);

    // 2. Connect
    session.on_connected();
    assert_eq!(session.state(), SessionState::LogonSent);

    // 3. Logon with version negotiation
    let buf = b"A\x019\x01";
    let logon = build_msg(buf, &[
        (tags::MSG_TYPE, 0, 1),
        (DEFAULT_APPL_VER_ID, 2, 1),
    ]);
    session.on_logon_received(&logon).unwrap();
    assert_eq!(session.state(), SessionState::Active);
    assert_eq!(session.negotiated_version(), Some(ApplVerID::Fix50SP2));

    // 4. Exchange messages
    assert_eq!(session.next_outbound_seq_num(), 1);
    assert!(session.validate_inbound_seq(1).is_ok());

    // 5. Disconnect clears negotiated version
    session.on_disconnected();
    assert_eq!(session.state(), SessionState::Disconnected);
    assert_eq!(session.negotiated_version(), None);
}

// -- Session-level messages always use FIXT.1.1 -------------------------

#[test]
fn test_session_messages_use_fixt_begin_string() {
    let session = FixtSession::new(fixt_config());

    // Regardless of the application version, the session config
    // (and therefore all serialized session-level messages) must
    // use "FIXT.1.1" as the BeginString.
    assert_eq!(session.config().fix_version, FIXT_BEGIN_STRING);

    // Build a Heartbeat with the session's BeginString and verify
    let mut buf = [0u8; 1024];
    let len = velocitas_fix::serializer::build_heartbeat(
        &mut buf,
        session.config().fix_version.as_bytes(),
        session.config().sender_comp_id.as_bytes(),
        session.config().target_comp_id.as_bytes(),
        1,
        b"20260321-10:00:00",
    );

    let parser = velocitas_fix::parser::FixParser::new();
    let (view, _) = parser.parse(&buf[..len]).expect("should parse heartbeat");
    assert_eq!(view.begin_string(), Some("FIXT.1.1"));
}
