use velocitas_fix::dashboard::{Dashboard, DashboardConfig, HealthStatus, SessionStatus, json_escape};

fn test_config() -> DashboardConfig {
    DashboardConfig::default()
}

fn test_session(id: &str) -> SessionStatus {
    SessionStatus {
        session_id: id.to_string(),
        sender_comp_id: "SENDER".to_string(),
        target_comp_id: "TARGET".to_string(),
        state: "Active".to_string(),
        outbound_seq: 42,
        inbound_seq: 37,
        messages_sent: 1000,
        messages_received: 950,
        last_activity_ms: 100,
        uptime_secs: 3600,
    }
}

fn test_health() -> HealthStatus {
    HealthStatus {
        healthy: true,
        version: "0.1.0".to_string(),
        uptime_secs: 7200,
        active_sessions: 2,
        messages_processed: 50000,
        engine_state: "active".to_string(),
    }
}

// -- DashboardConfig defaults --

#[test]
fn default_config_bind_address() {
    let cfg = DashboardConfig::default();
    assert_eq!(cfg.bind_address, "0.0.0.0");
    assert_eq!(cfg.port, 8080);
    assert!(cfg.enable_health_endpoint);
    assert!(cfg.enable_metrics_endpoint);
    assert!(cfg.enable_sessions_endpoint);
}

// -- Request routing --

#[test]
fn handle_request_health_returns_200() {
    let mut dash = Dashboard::new(test_config());
    dash.update_health(test_health());
    let resp = dash.handle_request("GET", "/health");
    assert_eq!(resp.status_code, 200);
    assert_eq!(resp.content_type, "application/json");
    assert!(resp.body.contains("\"healthy\":true"));
}

#[test]
fn handle_request_sessions_returns_200() {
    let mut dash = Dashboard::new(test_config());
    dash.update_session(test_session("S1"));
    let resp = dash.handle_request("GET", "/sessions");
    assert_eq!(resp.status_code, 200);
    assert_eq!(resp.content_type, "application/json");
    assert!(resp.body.contains("\"session_id\":\"S1\""));
}

#[test]
fn handle_request_root_returns_html() {
    let dash = Dashboard::new(test_config());
    let resp = dash.handle_request("GET", "/");
    assert_eq!(resp.status_code, 200);
    assert!(resp.content_type.contains("text/html"));
    assert!(resp.body.contains("Velocitas FIX Engine"));
}

#[test]
fn handle_request_metrics_returns_prometheus() {
    let mut dash = Dashboard::new(test_config());
    dash.update_health(test_health());
    let resp = dash.handle_request("GET", "/metrics");
    assert_eq!(resp.status_code, 200);
    assert!(resp.content_type.contains("text/plain"));
    assert!(resp.body.contains("velocitas_up 1"));
}

#[test]
fn handle_request_latency_returns_json() {
    let dash = Dashboard::new(test_config());
    let resp = dash.handle_request("GET", "/api/latency");
    assert_eq!(resp.status_code, 200);
    assert!(resp.body.contains("\"p50_ns\""));
    assert!(resp.body.contains("\"p99_ns\""));
}

#[test]
fn handle_request_unknown_path_returns_404() {
    let dash = Dashboard::new(test_config());
    let resp = dash.handle_request("GET", "/nonexistent");
    assert_eq!(resp.status_code, 404);
}

#[test]
fn handle_request_post_returns_405() {
    let dash = Dashboard::new(test_config());
    let resp = dash.handle_request("POST", "/health");
    assert_eq!(resp.status_code, 405);
}

// -- Session management --

#[test]
fn update_session_adds_new() {
    let mut dash = Dashboard::new(test_config());
    assert_eq!(dash.session_count(), 0);
    dash.update_session(test_session("S1"));
    assert_eq!(dash.session_count(), 1);
}

#[test]
fn update_session_updates_existing() {
    let mut dash = Dashboard::new(test_config());
    dash.update_session(test_session("S1"));
    let mut updated = test_session("S1");
    updated.messages_sent = 9999;
    dash.update_session(updated);
    assert_eq!(dash.session_count(), 1);

    let json = dash.render_json_sessions();
    assert!(json.contains("\"messages_sent\":9999"));
}

#[test]
fn remove_session_works() {
    let mut dash = Dashboard::new(test_config());
    dash.update_session(test_session("S1"));
    dash.update_session(test_session("S2"));
    assert_eq!(dash.session_count(), 2);
    dash.remove_session("S1");
    assert_eq!(dash.session_count(), 1);

    let json = dash.render_json_sessions();
    assert!(!json.contains("\"session_id\":\"S1\""));
    assert!(json.contains("\"session_id\":\"S2\""));
}

#[test]
fn remove_nonexistent_session_is_noop() {
    let mut dash = Dashboard::new(test_config());
    dash.update_session(test_session("S1"));
    dash.remove_session("NOPE");
    assert_eq!(dash.session_count(), 1);
}

// -- JSON format validation --

#[test]
fn json_health_is_valid() {
    let mut dash = Dashboard::new(test_config());
    dash.update_health(test_health());
    let json = dash.render_json_health();
    // Basic structural checks (no serde available).
    assert!(json.starts_with('{'));
    assert!(json.ends_with('}'));
    assert!(json.contains("\"healthy\":true"));
    assert!(json.contains("\"version\":\"0.1.0\""));
    assert!(json.contains("\"uptime_secs\":7200"));
    assert!(json.contains("\"active_sessions\":2"));
    assert!(json.contains("\"messages_processed\":50000"));
    assert!(json.contains("\"engine_state\":\"active\""));
}

#[test]
fn json_sessions_empty_array() {
    let dash = Dashboard::new(test_config());
    let json = dash.render_json_sessions();
    assert_eq!(json, "[]");
}

#[test]
fn json_sessions_multiple() {
    let mut dash = Dashboard::new(test_config());
    dash.update_session(test_session("A"));
    dash.update_session(test_session("B"));
    let json = dash.render_json_sessions();
    assert!(json.starts_with('['));
    assert!(json.ends_with(']'));
    assert!(json.contains("\"session_id\":\"A\""));
    assert!(json.contains("\"session_id\":\"B\""));
}

// -- HTML dashboard --

#[test]
fn html_dashboard_contains_expected_elements() {
    let mut dash = Dashboard::new(test_config());
    dash.update_health(test_health());
    dash.update_session(test_session("S1"));
    let html = dash.render_html_dashboard();
    assert!(html.contains("Velocitas FIX Engine"));
    assert!(html.contains("meta http-equiv=\"refresh\""));
    assert!(html.contains("<table>"));
    assert!(html.contains("S1"));
    assert!(html.contains("SENDER"));
    assert!(html.contains("TARGET"));
    assert!(html.contains("Active Sessions"));
}

#[test]
fn html_dashboard_no_sessions() {
    let dash = Dashboard::new(test_config());
    let html = dash.render_html_dashboard();
    assert!(html.contains("No active sessions."));
}

// -- JSON escaping --

#[test]
fn json_escape_special_chars() {
    assert_eq!(json_escape("hello"), "hello");
    assert_eq!(json_escape("a\"b"), "a\\\"b");
    assert_eq!(json_escape("a\\b"), "a\\\\b");
    assert_eq!(json_escape("a\nb"), "a\\nb");
}

// -- Disabled endpoints return 404 --

#[test]
fn disabled_health_returns_404() {
    let mut cfg = test_config();
    cfg.enable_health_endpoint = false;
    let dash = Dashboard::new(cfg);
    let resp = dash.handle_request("GET", "/health");
    assert_eq!(resp.status_code, 404);
}

#[test]
fn disabled_sessions_returns_404() {
    let mut cfg = test_config();
    cfg.enable_sessions_endpoint = false;
    let dash = Dashboard::new(cfg);
    let resp = dash.handle_request("GET", "/sessions");
    assert_eq!(resp.status_code, 404);
}

#[test]
fn disabled_metrics_returns_404() {
    let mut cfg = test_config();
    cfg.enable_metrics_endpoint = false;
    let dash = Dashboard::new(cfg);
    let resp = dash.handle_request("GET", "/metrics");
    assert_eq!(resp.status_code, 404);
}
