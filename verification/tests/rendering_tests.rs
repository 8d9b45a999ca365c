use velocitas_fix::dashboard::{json_escape, Dashboard, DashboardConfig, HealthStatus};
use velocitas_fix::metrics::{format_labels, render_summary, Counter, Gauge};
use velocitas_fix::transport::{first_foreign_frame, KernelTcpTransport, Transport, TransportConfig, TransportMode};
use velocitas_fix::transport_dpdk::{DpdkMempool, DpdkTransport, DpdkConfig};
use velocitas_fix::text::str_equal;

#[test]
fn json_escape_control_characters() {
    assert_eq!(json_escape("a\tb\rc"), "a\\tb\\rc");
    assert_eq!(json_escape("\u{1}\u{1f}"), "\\u0001\\u001f");
    assert_eq!(json_escape("é\u{7f}"), "é\u{7f}");
}

#[test]
fn dashboard_health_json_exact() {
    let mut dash = Dashboard::new(DashboardConfig::default());
    dash.update_health(HealthStatus {
        healthy: false,
        version: "1.2".to_string(),
        uptime_secs: 5,
        active_sessions: 1,
        messages_processed: 9,
        engine_state: "st\"op".to_string(),
    });
    assert_eq!(
        dash.render_json_health(),
        "{\"healthy\":false,\"version\":\"1.2\",\"uptime_secs\":5,\"active_sessions\":1,\"messages_processed\":9,\"engine_state\":\"st\\\"op\"}"
    );
    let resp = dash.handle_request("GET", "/metrics");
    assert!(resp.body.contains("velocitas_up 0\n"));
    assert!(resp.body.ends_with("velocitas_uptime_seconds 5\n"));
    let latency = dash.handle_request("GET", "/api/latency");
    assert_eq!(latency.body, "{\"p50_ns\":0,\"p90_ns\":0,\"p99_ns\":0,\"p999_ns\":0,\"count\":0}");
    assert_eq!(dash.handle_request("PUT", "/").status_code, 405);
}

#[test]
fn dashboard_default_health() {
    let h = HealthStatus::default();
    assert!(h.healthy);
    assert_eq!(h.version, "0.1.0");
    assert_eq!(h.engine_state, "starting");
}

#[test]
fn metrics_label_and_summary_text() {
    let labels = vec![("a", "1".to_string()), ("b", "x y".to_string())];
    assert_eq!(format_labels(&labels), "{a=\"1\",b=\"x y\"}");
    assert_eq!(format_labels(&[]), "{}");
    let mut out = String::new();
    render_summary(&mut out, "lat", "Latency", &[5, 6, 7, 8], 4, 26);
    assert_eq!(
        out,
        "# HELP lat Latency\n# TYPE lat summary\nlat{quantile=\"0.5\"} 5\nlat{quantile=\"0.9\"} 6\nlat{quantile=\"0.99\"} 7\nlat{quantile=\"0.9990000000000001\"} 8\nlat_count 4\nlat_sum 26\n"
    );
    assert_eq!(format!("{}", 99.9f64 / 100.0), "0.9990000000000001");
}

#[test]
fn metrics_render_exact() {
    let c = Counter::new("c_total", "Count");
    c.inc_by(3);
    let mut out = String::new();
    c.render(&mut out);
    assert_eq!(out, "# HELP c_total Count\n# TYPE c_total counter\nc_total 3\n");
    let g = Gauge::new("g", "Level");
    g.set(-12);
    let mut out = String::new();
    g.render(&mut out);
    assert_eq!(out, "# HELP g Level\n# TYPE g gauge\ng -12\n");
}

#[test]
fn transport_frame_selection() {
    assert_eq!(first_foreign_frame(&[], 1), None);
    assert_eq!(first_foreign_frame(&[1, 1, 2, 3], 1), Some(2));
    assert_eq!(first_foreign_frame(&[4, 1], 1), Some(0));
    assert_eq!(first_foreign_frame(&[1, 1], 1), None);
}

#[test]
fn transport_configs_and_kernel_errors() {
    let c = TransportConfig::aeron_ipc(77);
    assert_eq!(c.mode, TransportMode::Aeron);
    assert_eq!(c.aeron_stream_id, 77);
    assert_eq!(c.recv_buffer_size, 256 * 1024);
    assert!(c.tcp_nodelay);
    let k = TransportConfig::kernel_tcp();
    assert_eq!(k.mode, TransportMode::KernelTcp);
    let mut t = KernelTcpTransport::new(k);
    let e = t.send(b"x").unwrap_err();
    assert_eq!(e.kind(), std::io::ErrorKind::NotConnected);
    assert_eq!(e.to_string(), "not connected");
    let mut buf = [0u8; 4];
    assert_eq!(t.recv(&mut buf).unwrap_err().kind(), std::io::ErrorKind::NotConnected);
}

#[test]
fn dpdk_errors_and_truncated_lengths() {
    let mut t = DpdkTransport::new(DpdkConfig::default());
    let e = t.connect("10.0.0.1", 1).unwrap_err();
    assert_eq!(e.kind(), std::io::ErrorKind::Other);
    t.initialize().unwrap();
    assert_eq!(t.initialize().unwrap_err().kind(), std::io::ErrorKind::AlreadyExists);
    let pool = DpdkMempool::new("p", 1, 1, 64);
    let mut m = pool.allocate_mbuf().unwrap();
    let big = vec![7u8; 70_000];
    m.set_data(&big);
    assert_eq!(m.data_len, (70_000u32 % 65_536) as u16);
    assert_eq!(m.pkt_len, 70_000);
    assert_eq!(m.data().len(), 70_000);
}

#[test]
fn text_equality_by_bytes() {
    assert!(str_equal("abc", "abc"));
    assert!(!str_equal("abc", "abd"));
    assert!(!str_equal("ab", "abc"));
    assert!(str_equal("", ""));
}
