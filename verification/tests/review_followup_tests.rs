use velocitas_fix::cluster::{decode_session_state, encode_session_state, ReplicatedSessionState};
use velocitas_fix::engine::{connection_lost, IoFailure};
use velocitas_fix::pool::BufferPool;

#[test]
fn connection_lost_kinds() {
    assert!(connection_lost(IoFailure::ConnectionReset));
    assert!(connection_lost(IoFailure::BrokenPipe));
    assert!(connection_lost(IoFailure::UnexpectedEof));
    assert!(!connection_lost(IoFailure::Other));
}

#[test]
fn empty_pool_allocates_nothing() {
    let mut pool = BufferPool::new(64, 0);
    assert!(pool.allocate().is_none());
}

#[test]
fn pool_hands_out_every_slot_once_then_none() {
    let mut pool = BufferPool::new(64, 3);
    let a = pool.allocate().unwrap();
    let b = pool.allocate().unwrap();
    let c = pool.allocate().unwrap();
    assert_eq!((a.index(), b.index(), c.index()), (0, 1, 2));
    assert!(pool.allocate().is_none());
    pool.deallocate(a);
    pool.deallocate(b);
    pool.deallocate(c);
    let mut seen = vec![];
    while let Some(h) = pool.allocate() {
        seen.push(h.index());
    }
    seen.sort();
    assert_eq!(seen, vec![0, 1, 2]);
}

#[test]
fn session_state_prefixes_do_not_decode() {
    let s = ReplicatedSessionState {
        session_id: "S1".to_string(),
        sender_comp_id: "BANK".to_string(),
        target_comp_id: "NYSE".to_string(),
        outbound_seq_num: 42,
        inbound_seq_num: 7,
        state: 3,
        last_updated_ms: 1_700_000_000_000,
    };
    let e = encode_session_state(&s);
    assert!(decode_session_state(&e).is_some());
    for k in 0..e.len() {
        assert!(decode_session_state(&e[..k]).is_none(), "prefix {} decoded", k);
    }
}
