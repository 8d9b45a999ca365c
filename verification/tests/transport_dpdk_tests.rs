use velocitas_fix::transport::Transport;
use std::io;
use velocitas_fix::transport_dpdk::{DpdkConfig, DpdkMempool, DpdkTransport};

#[test]
fn test_dpdk_config_defaults() {
    let cfg = DpdkConfig::default();
    assert_eq!(cfg.port_id, 0);
    assert_eq!(cfg.rx_queues, 1);
    assert_eq!(cfg.tx_queues, 1);
    assert_eq!(cfg.rx_ring_size, 1024);
    assert_eq!(cfg.tx_ring_size, 1024);
    assert_eq!(cfg.num_mbufs, 8192);
    assert_eq!(cfg.mbuf_cache_size, 256);
    assert!(!cfg.hw_timestamps);
    assert!(cfg.poll_core.is_none());
    assert!(!cfg.promiscuous);
    assert!(cfg.eal_args.is_empty());
}

#[test]
fn test_dpdk_transport_lifecycle() {
    let config = DpdkConfig::default();
    let mut transport = DpdkTransport::new(config);

    assert!(!transport.is_connected());

    // Must initialize before connecting.
    assert!(transport.connect("10.0.0.1", 9876).is_err());

    transport.initialize().unwrap();

    // Double init should fail.
    assert!(transport.initialize().is_err());

    transport.connect("10.0.0.1", 9876).unwrap();
    assert!(transport.is_connected());

    let sent = transport.send(b"8=FIX.4.4\x01").unwrap();
    assert_eq!(sent, 10);

    transport.close().unwrap();
    assert!(!transport.is_connected());
}

#[test]
fn test_dpdk_transport_send_not_connected() {
    let mut transport = DpdkTransport::new(DpdkConfig::default());
    transport.initialize().unwrap();
    let err = transport.send(b"data").unwrap_err();
    assert_eq!(err.kind(), io::ErrorKind::NotConnected);
}

#[test]
fn test_dpdk_transport_recv_not_connected() {
    let mut transport = DpdkTransport::new(DpdkConfig::default());
    transport.initialize().unwrap();
    let mut buf = [0u8; 64];
    let err = transport.recv(&mut buf).unwrap_err();
    assert_eq!(err.kind(), io::ErrorKind::NotConnected);
}

#[test]
fn test_dpdk_stats_tracking() {
    let mut transport = DpdkTransport::new(DpdkConfig::default());
    transport.initialize().unwrap();
    transport.connect("10.0.0.1", 9876).unwrap();

    transport.send(b"hello").unwrap();
    transport.send(b"world!!").unwrap();

    let stats = transport.stats();
    assert_eq!(stats.tx_packets, 2);
    assert_eq!(stats.tx_bytes, 12);
    assert_eq!(stats.rx_packets, 0);
}

#[test]
fn test_dpdk_promiscuous() {
    let mut transport = DpdkTransport::new(DpdkConfig::default());
    assert!(!transport.promiscuous());
    transport.set_promiscuous(true);
    assert!(transport.promiscuous());
    transport.set_promiscuous(false);
    assert!(!transport.promiscuous());
}

#[test]
fn test_dpdk_mac_address() {
    let transport = DpdkTransport::new(DpdkConfig::default());
    assert_eq!(transport.mac_address(), [0u8; 6]);
}

#[test]
fn test_dpdk_mempool_allocate_free() {
    let pool = DpdkMempool::new("test_pool", 1024, 32, 2048);
    assert_eq!(pool.name, "test_pool");
    assert_eq!(pool.num_mbufs, 1024);
    assert_eq!(pool.cache_size, 32);
    assert_eq!(pool.data_room_size, 2048);

    let mbuf = pool.allocate_mbuf();
    assert!(mbuf.is_some());

    let mbuf = mbuf.unwrap();
    assert_eq!(mbuf.data_len, 0);
    assert_eq!(mbuf.pkt_len, 0);

    pool.free_mbuf(mbuf);
}

#[test]
fn test_dpdk_mbuf_data_access() {
    let pool = DpdkMempool::new("test_pool", 1024, 32, 2048);
    let mut mbuf = pool.allocate_mbuf().unwrap();

    assert!(mbuf.data().is_empty());

    mbuf.set_data(b"FIX message payload");
    assert_eq!(mbuf.data(), b"FIX message payload");
    assert_eq!(mbuf.data_len, 19);
    assert_eq!(mbuf.pkt_len, 19);

    mbuf.data_mut()[0] = b'X';
    assert_eq!(mbuf.data()[0], b'X');
}

#[test]
fn test_dpdk_transport_bind() {
    let mut transport = DpdkTransport::new(DpdkConfig::default());

    // Bind without init should fail.
    assert!(transport.bind("0.0.0.0", 9876).is_err());

    transport.initialize().unwrap();
    transport.bind("0.0.0.0", 9876).unwrap();
}

#[test]
fn test_dpdk_transport_poll() {
    let mut transport = DpdkTransport::new(DpdkConfig::default());
    transport.initialize().unwrap();
    let event = transport.poll().unwrap();
    assert!(event.is_none());
}

#[test]
fn test_dpdk_transport_trait_object() {
    let mut transport: Box<dyn Transport> = Box::new(DpdkTransport::new(DpdkConfig::default()));
    // Verify DpdkTransport can be used as a trait object.
    assert!(!transport.is_connected());
    assert!(transport.poll().unwrap().is_none());
}
