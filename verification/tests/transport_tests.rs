use velocitas_fix::transport::Transport;
use velocitas_fix::transport::{KernelTcpTransport, TransportConfig, TransportMode};

#[test]
fn test_default_transport_is_aeron() {
    let config = TransportConfig::default();
    assert_eq!(config.mode, TransportMode::Aeron);
    assert_eq!(config.aeron_channel.as_deref(), Some("aeron:ipc"));
}

#[test]
fn test_kernel_tcp_transport() {
    let config = TransportConfig::kernel_tcp();
    let mut transport = KernelTcpTransport::new(config);

    assert!(!transport.is_connected());
    transport.connect("127.0.0.1", 9876).unwrap();
    assert!(transport.is_connected());

    let sent = transport.send(b"hello").unwrap();
    assert_eq!(sent, 5);

    transport.close().unwrap();
    assert!(!transport.is_connected());
}
