use velocitas_fix::cluster::{ClusterConfig, ClusterNode, NodeId, NodeRole, NodeState, ReplicatedSessionState};

fn make_session_state(session_id: &str, outbound: u64, inbound: u64) -> ReplicatedSessionState {
    ReplicatedSessionState {
        session_id: session_id.to_string(),
        sender_comp_id: "SENDER".to_string(),
        target_comp_id: "TARGET".to_string(),
        outbound_seq_num: outbound,
        inbound_seq_num: inbound,
        state: 3, // Active
        last_updated_ms: 1_700_000_000_000,
    }
}

fn make_peers(ids: &[u32]) -> Vec<NodeId> {
    ids.iter()
        .map(|&id| NodeId {
            id,
            address: "127.0.0.1".to_string(),
            port: 9000 + id as u16,
        })
        .collect()
}

#[test]
fn test_single_node_becomes_leader() {
    let config = ClusterConfig::single_node(1);
    let mut node = ClusterNode::new(config);

    assert_eq!(node.role(), NodeRole::Follower);
    assert_eq!(node.state(), NodeState::Joining);

    node.start();

    assert_eq!(node.state(), NodeState::Active);
    assert_eq!(node.role(), NodeRole::Leader);
    assert!(node.is_leader());
    assert_eq!(node.current_term(), 1);
}

#[test]
fn test_three_node_election_with_majority() {
    let peers = make_peers(&[2, 3]);
    let config = ClusterConfig::three_node(1, peers);
    let mut node = ClusterNode::new(config);

    node.start();

    // After start, node is Candidate (needs votes from peers).
    assert_eq!(node.role(), NodeRole::Candidate);
    assert_eq!(node.current_term(), 1);

    // Receive one more vote — majority (2 of 3).
    node.receive_vote(2, 1, true);
    assert_eq!(node.role(), NodeRole::Leader);
    assert!(node.is_leader());
}

#[test]
fn test_election_needs_majority() {
    let peers = make_peers(&[2, 3]);
    let config = ClusterConfig::three_node(1, peers);
    let mut node = ClusterNode::new(config);

    node.start();

    // Rejected vote — still Candidate.
    node.receive_vote(2, 1, false);
    assert_eq!(node.role(), NodeRole::Candidate);

    // Granted vote — now has majority.
    node.receive_vote(3, 1, true);
    assert_eq!(node.role(), NodeRole::Leader);
}

#[test]
fn test_session_state_replication_and_retrieval() {
    let config = ClusterConfig::single_node(1);
    let mut node = ClusterNode::new(config);
    node.start();

    let state = make_session_state("FIX-1", 42, 37);
    node.replicate_session_state(state);

    assert_eq!(node.log_len(), 1);

    // Apply the entry.
    let entry = node.log[0].clone();
    node.apply_log_entry(&entry);

    let retrieved = node.get_session_state("FIX-1").unwrap();
    assert_eq!(retrieved.outbound_seq_num, 42);
    assert_eq!(retrieved.inbound_seq_num, 37);
    assert_eq!(retrieved.sender_comp_id, "SENDER");
}

#[test]
fn test_snapshot_create_and_restore() {
    let config = ClusterConfig::single_node(1);
    let mut node = ClusterNode::new(config);
    node.start();

    node.replicate_session_state(make_session_state("FIX-1", 10, 5));
    node.replicate_session_state(make_session_state("FIX-2", 20, 15));

    for i in 0..node.log.len() {
        let entry = node.log[i].clone();
        node.apply_log_entry(&entry);
    }

    let snapshot = node.create_snapshot();
    assert!(!snapshot.is_empty());

    // Restore into a fresh node.
    let config2 = ClusterConfig::single_node(2);
    let mut node2 = ClusterNode::new(config2);
    node2.restore_snapshot(&snapshot);

    assert_eq!(node2.state(), NodeState::Active);

    let s1 = node2.get_session_state("FIX-1").unwrap();
    assert_eq!(s1.outbound_seq_num, 10);
    assert_eq!(s1.inbound_seq_num, 5);

    let s2 = node2.get_session_state("FIX-2").unwrap();
    assert_eq!(s2.outbound_seq_num, 20);
    assert_eq!(s2.inbound_seq_num, 15);
}

#[test]
fn test_leader_step_down_on_higher_term() {
    let config = ClusterConfig::single_node(1);
    let mut node = ClusterNode::new(config);
    node.start();
    assert!(node.is_leader());
    assert_eq!(node.current_term(), 1);

    node.step_down(5);
    assert_eq!(node.role(), NodeRole::Follower);
    assert_eq!(node.current_term(), 5);
    assert!(!node.is_leader());
}

#[test]
fn test_receive_vote_with_higher_term_steps_down() {
    let peers = make_peers(&[2, 3]);
    let config = ClusterConfig::three_node(1, peers);
    let mut node = ClusterNode::new(config);
    node.start();
    assert_eq!(node.role(), NodeRole::Candidate);

    // Peer responds with a higher term.
    node.receive_vote(2, 10, false);
    assert_eq!(node.role(), NodeRole::Follower);
    assert_eq!(node.current_term(), 10);
}

#[test]
fn test_log_entry_append_and_commit() {
    let config = ClusterConfig::single_node(1);
    let mut node = ClusterNode::new(config);
    node.start();

    node.replicate_session_state(make_session_state("A", 1, 1));
    node.replicate_session_state(make_session_state("B", 2, 2));
    node.replicate_session_state(make_session_state("C", 3, 3));

    assert_eq!(node.log_len(), 3);
    assert_eq!(node.commit_index(), 0);
    assert_eq!(node.pending_entries(), 3);

    // Apply first two entries.
    let e0 = node.log[0].clone();
    let e1 = node.log[1].clone();
    node.apply_log_entry(&e0);
    node.apply_log_entry(&e1);

    assert_eq!(node.commit_index(), 2);
    assert_eq!(node.pending_entries(), 1);
}

#[test]
fn test_node_state_transitions() {
    let config = ClusterConfig::single_node(1);
    let mut node = ClusterNode::new(config);

    assert_eq!(node.state(), NodeState::Joining);

    node.start();
    assert_eq!(node.state(), NodeState::Active);
}

#[test]
fn test_election_term_increment() {
    let peers = make_peers(&[2, 3]);
    let config = ClusterConfig::three_node(1, peers);
    let mut node = ClusterNode::new(config);

    assert_eq!(node.current_term(), 0);

    node.start(); // first election
    assert_eq!(node.current_term(), 1);

    // Simulate failed election — start another.
    node.begin_election();
    assert_eq!(node.current_term(), 2);
    assert_eq!(node.role(), NodeRole::Candidate);

    node.begin_election();
    assert_eq!(node.current_term(), 3);
}

#[test]
fn test_session_state_upsert() {
    let config = ClusterConfig::single_node(1);
    let mut node = ClusterNode::new(config);
    node.start();

    node.replicate_session_state(make_session_state("FIX-1", 10, 5));
    let entry = node.log[0].clone();
    node.apply_log_entry(&entry);

    assert_eq!(node.get_session_state("FIX-1").unwrap().outbound_seq_num, 10);

    // Update the same session.
    node.replicate_session_state(make_session_state("FIX-1", 42, 30));
    let entry = node.log[1].clone();
    node.apply_log_entry(&entry);

    assert_eq!(node.get_session_state("FIX-1").unwrap().outbound_seq_num, 42);
    assert_eq!(node.get_session_state("FIX-1").unwrap().inbound_seq_num, 30);
    // Should still be only one entry, not two.
    assert_eq!(node.session_states.len(), 1);
}

#[test]
fn test_get_session_state_not_found() {
    let config = ClusterConfig::single_node(1);
    let node = ClusterNode::new(config);
    assert!(node.get_session_state("nonexistent").is_none());
}

#[test]
fn test_pending_entries_empty_log() {
    let config = ClusterConfig::single_node(1);
    let node = ClusterNode::new(config);
    assert_eq!(node.pending_entries(), 0);
}
