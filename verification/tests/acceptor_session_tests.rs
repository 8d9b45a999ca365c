use velocitas_fix::acceptor::{Acceptor, AcceptorConfig};
use velocitas_fix::message::MsgType;
use velocitas_fix::session::SessionState;

#[test]
fn acceptor_get_session_mut_changes_the_pooled_session() {
    let mut acceptor = Acceptor::new(AcceptorConfig { connection_pool_size: 2, max_connections: 4, ..AcceptorConfig::default() });
    let id = acceptor.accept_connection("10.0.0.1:5000", "CLIENT-A", 1000).unwrap();
    let before = acceptor.get_session(id).unwrap().state();
    {
        let session = acceptor.get_session_mut(id).expect("a pooled session");
        session.on_connected();
    }
    assert_eq!(before, SessionState::Disconnected);
    assert_eq!(acceptor.get_session(id).unwrap().state(), SessionState::Connecting);
    assert!(acceptor.get_session_mut(id + 100).is_none());
}

#[test]
fn msg_type_is_admin_matches_session_level() {
    assert!(MsgType::Logon.is_admin());
    assert!(MsgType::Heartbeat.is_admin());
    assert!(MsgType::SequenceReset.is_admin());
    assert!(!MsgType::NewOrderSingle.is_admin());
    assert!(!MsgType::ExecutionReport.is_admin());
    assert!(!MsgType::Unknown.is_admin());
}
