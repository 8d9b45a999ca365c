use velocitas_fix::acceptor::{Acceptor, AcceptorConfig, AcceptorError, ConnectionState};
use velocitas_fix::session::SessionRole;
fn test_config() -> AcceptorConfig {
    AcceptorConfig {
        connection_pool_size: 4,
        max_connections: 8,
        ..AcceptorConfig::default()
    }
}

#[test]
fn test_accept_connection_success() {
    let mut acceptor = Acceptor::new(test_config());
    let result = acceptor.accept_connection("10.0.0.1:5000", "CLIENT-A", 1000);
    assert!(result.is_ok());
    let conn_id = result.unwrap();

    let conn = acceptor.get_connection(conn_id).unwrap();
    assert_eq!(conn.state, ConnectionState::InUse);
    assert_eq!(conn.remote_comp_id, "CLIENT-A");
    assert_eq!(conn.remote_address, "10.0.0.1:5000");
    assert_eq!(conn.connected_at_ms, 1000);
}

#[test]
fn acceptor_test_pool_exhaustion() {
    let mut acceptor = Acceptor::new(test_config());
    for i in 0..4 {
        let result = acceptor.accept_connection(
            &format!("10.0.0.{}:5000", i),
            &format!("CLIENT-{}", i),
            1000,
        );
        assert!(result.is_ok());
    }
    let result = acceptor.accept_connection("10.0.0.99:5000", "CLIENT-99", 1000);
    assert_eq!(result, Err(AcceptorError::PoolExhausted));
}

#[test]
fn test_release_and_reuse() {
    let mut acceptor = Acceptor::new(test_config());

    // Fill all 4 slots.
    let mut ids = Vec::new();
    for i in 0..4 {
        let id = acceptor
            .accept_connection(
                &format!("10.0.0.{}:5000", i),
                &format!("CLIENT-{}", i),
                1000,
            )
            .unwrap();
        ids.push(id);
    }
    assert_eq!(acceptor.active_count(), 4);

    // Release one.
    acceptor.release_connection(ids[0]).unwrap();
    assert_eq!(acceptor.active_count(), 3);

    // Accept a new one — should reuse the slot.
    let new_id = acceptor
        .accept_connection("10.0.0.50:5000", "CLIENT-NEW", 2000)
        .unwrap();
    assert_eq!(acceptor.active_count(), 4);
    assert_ne!(new_id, ids[0]); // new conn_id
}

#[test]
fn test_comp_id_whitelist_allows_valid() {
    let mut config = test_config();
    config.allowed_comp_ids = vec!["ALPHA".to_string(), "BETA".to_string()];
    let mut acceptor = Acceptor::new(config);

    let result = acceptor.accept_connection("10.0.0.1:5000", "ALPHA", 1000);
    assert!(result.is_ok());
}

#[test]
fn test_comp_id_whitelist_rejects_invalid() {
    let mut config = test_config();
    config.allowed_comp_ids = vec!["ALPHA".to_string(), "BETA".to_string()];
    let mut acceptor = Acceptor::new(config);

    let result = acceptor.accept_connection("10.0.0.1:5000", "GAMMA", 1000);
    assert_eq!(
        result,
        Err(AcceptorError::CompIdNotAllowed("GAMMA".to_string()))
    );
}

#[test]
fn test_empty_whitelist_allows_all() {
    let config = test_config(); // empty allowed_comp_ids
    let mut acceptor = Acceptor::new(config);

    assert!(acceptor.is_comp_id_allowed("ANYTHING"));
    let result = acceptor.accept_connection("10.0.0.1:5000", "ANYTHING", 1000);
    assert!(result.is_ok());
}

#[test]
fn test_evict_idle_connections() {
    let mut acceptor = Acceptor::new(test_config());

    let id1 = acceptor
        .accept_connection("10.0.0.1:5000", "CLIENT-A", 1000)
        .unwrap();
    let _id2 = acceptor
        .accept_connection("10.0.0.2:5000", "CLIENT-B", 5000)
        .unwrap();

    // Update last_active_ms for id1 to simulate staleness.
    acceptor.get_connection_mut(id1).unwrap().last_active_ms = 1000;

    // Evict connections idle for more than 3000ms at time 5000.
    let evicted = acceptor.evict_idle(3000, 5000);
    assert_eq!(evicted, 1);
    assert_eq!(acceptor.active_count(), 1);
}

#[test]
fn test_drain_connection() {
    let mut acceptor = Acceptor::new(test_config());
    let id = acceptor
        .accept_connection("10.0.0.1:5000", "CLIENT-A", 1000)
        .unwrap();

    acceptor.drain_connection(id).unwrap();
    let conn = acceptor.get_connection(id).unwrap();
    assert_eq!(conn.state, ConnectionState::Draining);

    // Draining connections still count as active.
    assert_eq!(acceptor.active_count(), 1);
}

#[test]
fn test_stats_tracking() {
    let mut config = test_config();
    config.allowed_comp_ids = vec!["GOOD".to_string()];
    let mut acceptor = Acceptor::new(config);

    let _ = acceptor.accept_connection("10.0.0.1:5000", "GOOD", 1000);
    let _ = acceptor.accept_connection("10.0.0.2:5000", "BAD", 2000);

    let stats = acceptor.stats();
    assert_eq!(stats.total_accepted, 1);
    assert_eq!(stats.total_rejected, 1);
    assert_eq!(stats.active_connections, 1);
    assert_eq!(stats.pool_available, 3);
}

#[test]
fn test_find_by_comp_id() {
    let mut acceptor = Acceptor::new(test_config());
    let id = acceptor
        .accept_connection("10.0.0.1:5000", "CLIENT-A", 1000)
        .unwrap();

    assert_eq!(acceptor.find_by_comp_id("CLIENT-A"), Some(id));
    assert_eq!(acceptor.find_by_comp_id("CLIENT-X"), None);
}

#[test]
fn test_get_session_acceptor_role() {
    let mut acceptor = Acceptor::new(test_config());
    let id = acceptor
        .accept_connection("10.0.0.1:5000", "CLIENT-A", 1000)
        .unwrap();

    let session = acceptor.get_session(id).unwrap();
    assert_eq!(session.config().role, SessionRole::Acceptor);
    assert_eq!(session.config().target_comp_id, "CLIENT-A");
    assert_eq!(session.config().sender_comp_id, "VELOCITAS");
}

#[test]
fn test_multiple_simultaneous_connections() {
    let mut acceptor = Acceptor::new(test_config());

    let id1 = acceptor
        .accept_connection("10.0.0.1:5000", "CLIENT-A", 1000)
        .unwrap();
    let id2 = acceptor
        .accept_connection("10.0.0.2:5000", "CLIENT-B", 1000)
        .unwrap();
    let id3 = acceptor
        .accept_connection("10.0.0.3:5000", "CLIENT-C", 1000)
        .unwrap();

    assert_ne!(id1, id2);
    assert_ne!(id2, id3);
    assert_eq!(acceptor.active_count(), 3);

    // Each has its own session.
    assert_eq!(
        acceptor.get_session(id1).unwrap().config().target_comp_id,
        "CLIENT-A"
    );
    assert_eq!(
        acceptor.get_session(id2).unwrap().config().target_comp_id,
        "CLIENT-B"
    );
    assert_eq!(
        acceptor.get_session(id3).unwrap().config().target_comp_id,
        "CLIENT-C"
    );
}
