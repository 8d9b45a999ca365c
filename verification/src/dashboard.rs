//! A lightweight monitoring dashboard: health, sessions and metrics rendered as JSON,
//! HTML and Prometheus text, and the routing of requests to them.

use vstd::prelude::*;
use vstd::string::StringExecFns;
use crate::acceptor::dec_text;
use crate::text::{str_equal, decimal, push_char};

verus! {

// ---------------------------------------------------------------------------
// Text helpers
// ---------------------------------------------------------------------------

/// The lowercase hexadecimal digit for `n < 16`.
pub open spec fn hex_char(n: u32) -> char {
    if n < 10 {
        (48 + n) as char
    } else {
        (87 + n) as char
    }
}

fn hex_digit(n: u32) -> (c: char)
    requires
        n < 16,
    ensures
        c == hex_char(n),
{
    match n {
        0 => '0',
        1 => '1',
        2 => '2',
        3 => '3',
        4 => '4',
        5 => '5',
        6 => '6',
        7 => '7',
        8 => '8',
        9 => '9',
        10 => 'a',
        11 => 'b',
        12 => 'c',
        13 => 'd',
        14 => 'e',
        _ => 'f',
    }
}

/// The JSON escape of one character: quotes, backslashes and the control characters are
/// escaped, everything else is kept.
pub open spec fn escape_char(c: char) -> Seq<char> {
    if c == '"' {
        seq!['\\', '"']
    } else if c == '\\' {
        seq!['\\', '\\']
    } else if c == '\n' {
        seq!['\\', 'n']
    } else if c == '\r' {
        seq!['\\', 'r']
    } else if c == '\t' {
        seq!['\\', 't']
    } else if (c as u32) < 0x20 {
        seq!['\\', 'u', '0', '0', hex_char((c as u32) / 16), hex_char((c as u32) % 16)]
    } else {
        seq![c]
    }
}

/// The JSON escape of a text, character by character.
pub open spec fn escape_text(s: Seq<char>) -> Seq<char>
    decreases s.len(),
{
    if s.len() == 0 {
        seq![]
    } else {
        escape_text(s.drop_last()) + escape_char(s.last())
    }
}

/// Escape a text for use inside a JSON string.
pub fn json_escape(s: &str) -> (out: String)
    ensures
        out@ == escape_text(s@),
{
    broadcast use vstd::string::axiom_spec_iter;

    let mut out = String::new();
    for c in it: s.chars()
        invariant
            it.seq() == s@,
            it.index() <= s@.len(),
            out@ == escape_text(s@.take(it.index() as int)),
    {
        let ghost k = it.index() as int;
        assert(s@.take(k + 1).drop_last() =~= s@.take(k));
        assert(s@.take(k + 1).last() == c);
        if c == '"' {
            push_char(&mut out, '\\');
            push_char(&mut out, '"');
        } else if c == '\\' {
            push_char(&mut out, '\\');
            push_char(&mut out, '\\');
        } else if c == '\n' {
            push_char(&mut out, '\\');
            push_char(&mut out, 'n');
        } else if c == '\r' {
            push_char(&mut out, '\\');
            push_char(&mut out, 'r');
        } else if c == '\t' {
            push_char(&mut out, '\\');
            push_char(&mut out, 't');
        } else if (c as u32) < 0x20 {
            push_char(&mut out, '\\');
            push_char(&mut out, 'u');
            push_char(&mut out, '0');
            push_char(&mut out, '0');
            push_char(&mut out, hex_digit((c as u32) / 16));
            push_char(&mut out, hex_digit((c as u32) % 16));
        } else {
            push_char(&mut out, c);
        }
        assert(out@ =~= escape_text(s@.take(k + 1)));
    }
    assert(s@.take(s@.len() as int) =~= s@);
    out
}

pub open spec fn bool_text(b: bool) -> Seq<char> {
    if b {
        "true"@
    } else {
        "false"@
    }
}

fn bool_string(b: bool) -> (r: String)
    ensures
        r@ == bool_text(b),
{
    if b {
        String::from_str("true")
    } else {
        String::from_str("false")
    }
}

// ---------------------------------------------------------------------------
// Configuration and status records
// ---------------------------------------------------------------------------

/// Dashboard configuration.
#[derive(Debug, Clone)]
pub struct DashboardConfig {
    pub bind_address: String,
    pub port: u16,
    pub refresh_interval_ms: u64,
    pub enable_metrics_endpoint: bool,
    pub enable_sessions_endpoint: bool,
    pub enable_health_endpoint: bool,
}

impl Default for DashboardConfig {
    fn default() -> (c: Self)
        ensures
            c.bind_address@ == "0.0.0.0"@,
            c.port == 8080,
            c.refresh_interval_ms == 5000,
            c.enable_metrics_endpoint,
            c.enable_sessions_endpoint,
            c.enable_health_endpoint,
    {
        DashboardConfig {
            bind_address: String::from_str("0.0.0.0"),
            port: 8080,
            refresh_interval_ms: 5000,
            enable_metrics_endpoint: true,
            enable_sessions_endpoint: true,
            enable_health_endpoint: true,
        }
    }
}

/// Session status for dashboard display.
#[derive(Debug)]
pub struct SessionStatus {
    pub session_id: String,
    pub sender_comp_id: String,
    pub target_comp_id: String,
    pub state: String,
    pub outbound_seq: u64,
    pub inbound_seq: u64,
    pub messages_sent: u64,
    pub messages_received: u64,
    pub last_activity_ms: u64,
    pub uptime_secs: u64,
}

impl Clone for SessionStatus {
    fn clone(&self) -> (r: Self)
        ensures
            r == *self,
    {
        SessionStatus {
            session_id: self.session_id.clone(),
            sender_comp_id: self.sender_comp_id.clone(),
            target_comp_id: self.target_comp_id.clone(),
            state: self.state.clone(),
            outbound_seq: self.outbound_seq,
            inbound_seq: self.inbound_seq,
            messages_sent: self.messages_sent,
            messages_received: self.messages_received,
            last_activity_ms: self.last_activity_ms,
            uptime_secs: self.uptime_secs,
        }
    }
}

/// The version of this engine.
pub const ENGINE_VERSION: &'static str = "0.1.0";

/// Health check response.
#[derive(Debug, Clone)]
pub struct HealthStatus {
    pub healthy: bool,
    pub version: String,
    pub uptime_secs: u64,
    pub active_sessions: usize,
    pub messages_processed: u64,
    pub engine_state: String,
}

impl Default for HealthStatus {
    fn default() -> (h: Self)
        ensures
            h.healthy,
            h.version@ == ENGINE_VERSION@,
            h.uptime_secs == 0,
            h.active_sessions == 0,
            h.messages_processed == 0,
            h.engine_state@ == "starting"@,
    {
        HealthStatus {
            healthy: true,
            version: String::from_str(ENGINE_VERSION),
            uptime_secs: 0,
            active_sessions: 0,
            messages_processed: 0,
            engine_state: String::from_str("starting"),
        }
    }
}

/// Dashboard HTTP response.
#[derive(Debug)]
pub struct HttpResponse {
    pub status_code: u16,
    pub content_type: String,
    pub body: String,
}

/// A response by its status code, content type and body.
pub open spec fn response_is(r: HttpResponse, status: u16, content_type: Seq<char>, body: Seq<char>) -> bool {
    r.status_code == status && r.content_type@ == content_type && r.body@ == body
}

impl HttpResponse {
    fn json(body: String) -> (r: Self)
        ensures
            response_is(r, 200, "application/json"@, body@),
    {
        HttpResponse { status_code: 200, content_type: String::from_str("application/json"), body }
    }

    fn html(body: String) -> (r: Self)
        ensures
            response_is(r, 200, "text/html; charset=utf-8"@, body@),
    {
        HttpResponse {
            status_code: 200,
            content_type: String::from_str("text/html; charset=utf-8"),
            body,
        }
    }

    fn text(body: String) -> (r: Self)
        ensures
            response_is(r, 200, "text/plain; charset=utf-8"@, body@),
    {
        HttpResponse {
            status_code: 200,
            content_type: String::from_str("text/plain; charset=utf-8"),
            body,
        }
    }

    fn not_found() -> (r: Self)
        ensures
            response_is(r, 404, "text/plain"@, "404 Not Found"@),
    {
        HttpResponse {
            status_code: 404,
            content_type: String::from_str("text/plain"),
            body: String::from_str("404 Not Found"),
        }
    }

    fn method_not_allowed() -> (r: Self)
        ensures
            response_is(r, 405, "text/plain"@, "405 Method Not Allowed"@),
    {
        HttpResponse {
            status_code: 405,
            content_type: String::from_str("text/plain"),
            body: String::from_str("405 Method Not Allowed"),
        }
    }
}

// ---------------------------------------------------------------------------
// Renderings
// ---------------------------------------------------------------------------

/// The health status as a JSON object.
pub open spec fn health_json(h: HealthStatus) -> Seq<char> {
    "{"@ + "\"healthy\":"@ + bool_text(h.healthy) + ",\"version\":\""@ + escape_text(h.version@)
        + "\""@ + ",\"uptime_secs\":"@ + dec_text(h.uptime_secs) + ",\"active_sessions\":"@
        + dec_text(h.active_sessions as u64) + ",\"messages_processed\":"@ + dec_text(
        h.messages_processed,
    ) + ",\"engine_state\":\""@ + escape_text(h.engine_state@) + "\""@ + "}"@
}

/// One session as a JSON object.
pub open spec fn session_json(s: SessionStatus) -> Seq<char> {
    "{"@ + "\"session_id\":\""@ + escape_text(s.session_id@) + "\""@ + ",\"sender_comp_id\":\""@
        + escape_text(s.sender_comp_id@) + "\""@ + ",\"target_comp_id\":\""@ + escape_text(
        s.target_comp_id@,
    ) + "\""@ + ",\"state\":\""@ + escape_text(s.state@) + "\""@ + ",\"outbound_seq\":"@
        + dec_text(s.outbound_seq) + ",\"inbound_seq\":"@ + dec_text(s.inbound_seq)
        + ",\"messages_sent\":"@ + dec_text(s.messages_sent) + ",\"messages_received\":"@
        + dec_text(s.messages_received) + ",\"last_activity_ms\":"@ + dec_text(s.last_activity_ms)
        + ",\"uptime_secs\":"@ + dec_text(s.uptime_secs) + "}"@
}

/// The sessions as the items of a JSON array, separated by commas.
pub open spec fn sessions_items(ss: Seq<SessionStatus>) -> Seq<char>
    decreases ss.len(),
{
    if ss.len() == 0 {
        seq![]
    } else if ss.len() == 1 {
        session_json(ss[0])
    } else {
        sessions_items(ss.drop_last()) + ","@ + session_json(ss.last())
    }
}

/// The sessions as a JSON array.
pub open spec fn sessions_json(ss: Seq<SessionStatus>) -> Seq<char> {
    "["@ + sessions_items(ss) + "]"@
}

/// The start of the dashboard page, up to the refresh interval.
pub const PAGE_HEAD: &'static str = r#"<!DOCTYPE html>
<html>
<head>
<meta charset="utf-8">
<meta http-equiv="refresh" content=""#;

/// The rest of the page head, up to the title.
pub const PAGE_TITLE: &'static str = r#"">
<title>Velocitas FIX Engine Dashboard</title>
<style>
body { font-family: -apple-system, BlinkMacSystemFont, sans-serif; margin: 2em; background: #f5f5f5; }
h1 { color: #333; }
.status { display: inline-block; padding: 4px 12px; border-radius: 4px; color: #fff; font-weight: bold; }
.status.healthy { background: #27ae60; }
.status.unhealthy { background: #e74c3c; }
table { border-collapse: collapse; width: 100%; margin-top: 1em; background: #fff; }
th, td { border: 1px solid #ddd; padding: 8px; text-align: left; }
th { background: #2c3e50; color: #fff; }
tr:nth-child(even) { background: #f9f9f9; }
.metrics { display: flex; gap: 1em; margin-top: 1em; flex-wrap: wrap; }
.metric-card { background: #fff; border: 1px solid #ddd; border-radius: 4px; padding: 1em; min-width: 180px; }
.metric-value { font-size: 1.8em; font-weight: bold; color: #2c3e50; }
.metric-label { color: #666; font-size: 0.9em; }
</style>
</head>
<body>
<h1>Velocitas FIX Engine</h1>"#;

pub const CARD_SESSIONS: &'static str = r#"<div class="metrics">
<div class="metric-card"><div class="metric-value">"#;

pub const CARD_MESSAGES: &'static str = r#"</div><div class="metric-label">Active Sessions</div></div>
<div class="metric-card"><div class="metric-value">"#;

pub const CARD_UPTIME: &'static str = r#"</div><div class="metric-label">Messages Processed</div></div>
<div class="metric-card"><div class="metric-value">"#;

pub const CARD_VERSION: &'static str = r#"</div><div class="metric-label">Uptime (secs)</div></div>
<div class="metric-card"><div class="metric-value">"#;

pub const CARDS_END: &'static str = r#"</div><div class="metric-label">Version</div></div>
</div>"#;

pub const TABLE_HEADER: &'static str = "<table><tr><th>Session ID</th><th>Sender</th><th>Target</th><th>State</th><th>Out Seq</th><th>In Seq</th><th>Sent</th><th>Received</th><th>Last Activity (ms)</th><th>Uptime (s)</th></tr>";

/// One session as a table row.
pub open spec fn session_row(s: SessionStatus) -> Seq<char> {
    "<tr><td>"@ + s.session_id@ + "</td><td>"@ + s.sender_comp_id@ + "</td><td>"@
        + s.target_comp_id@ + "</td><td>"@ + s.state@ + "</td><td>"@ + dec_text(s.outbound_seq)
        + "</td><td>"@ + dec_text(s.inbound_seq) + "</td><td>"@ + dec_text(s.messages_sent)
        + "</td><td>"@ + dec_text(s.messages_received) + "</td><td>"@ + dec_text(
        s.last_activity_ms,
    ) + "</td><td>"@ + dec_text(s.uptime_secs) + "</td></tr>"@
}

/// The table rows of the sessions, in order.
pub open spec fn session_rows(ss: Seq<SessionStatus>) -> Seq<char>
    decreases ss.len(),
{
    if ss.len() == 0 {
        seq![]
    } else {
        session_rows(ss.drop_last()) + session_row(ss.last())
    }
}

/// The sessions section of the page.
pub open spec fn session_table(ss: Seq<SessionStatus>) -> Seq<char> {
    if ss.len() == 0 {
        "<p>No active sessions.</p>"@
    } else {
        TABLE_HEADER@ + session_rows(ss) + "</table>"@
    }
}

/// The HTML dashboard page.
pub open spec fn html_page(c: DashboardConfig, h: HealthStatus, ss: Seq<SessionStatus>) -> Seq<char> {
    PAGE_HEAD@ + dec_text(c.refresh_interval_ms / 1000) + PAGE_TITLE@
        + "<p>Engine State: <span class=\"status "@ + (if h.healthy {
        "healthy"@
    } else {
        "unhealthy"@
    }) + "\">"@ + h.engine_state@ + "</span></p>"@ + CARD_SESSIONS@ + dec_text(
        h.active_sessions as u64,
    ) + CARD_MESSAGES@ + dec_text(h.messages_processed) + CARD_UPTIME@ + dec_text(h.uptime_secs)
        + CARD_VERSION@ + h.version@ + CARDS_END@ + "<h2>Sessions</h2>"@ + session_table(ss)
        + "</body></html>"@
}

/// The health status in Prometheus text format.
pub open spec fn prometheus_text(h: HealthStatus) -> Seq<char> {
    "# HELP velocitas_up Engine health (1=up, 0=down)\n"@ + "# TYPE velocitas_up gauge\n"@
        + "velocitas_up "@ + (if h.healthy {
        "1"@
    } else {
        "0"@
    }) + "\n"@ + "# HELP velocitas_active_sessions Number of active FIX sessions\n"@
        + "# TYPE velocitas_active_sessions gauge\n"@ + "velocitas_active_sessions "@ + dec_text(
        h.active_sessions as u64,
    ) + "\n"@ + "# HELP velocitas_messages_processed_total Total messages processed\n"@
        + "# TYPE velocitas_messages_processed_total counter\n"@
        + "velocitas_messages_processed_total "@ + dec_text(h.messages_processed) + "\n"@
        + "# HELP velocitas_uptime_seconds Engine uptime\n"@
        + "# TYPE velocitas_uptime_seconds gauge\n"@ + "velocitas_uptime_seconds "@ + dec_text(
        h.uptime_secs,
    ) + "\n"@
}

/// The latency summary, all zero until latency is recorded here.
pub open spec fn latency_json() -> Seq<char> {
    "{"@ + "\"p50_ns\":0"@ + ",\"p90_ns\":0"@ + ",\"p99_ns\":0"@ + ",\"p999_ns\":0"@
        + ",\"count\":0"@ + "}"@
}

/// One session as a JSON object.
fn session_json_string(s: &SessionStatus) -> (out: String)
    ensures
        out@ == session_json(*s),
{
    let mut out = String::from_str("{");
    out.append("\"session_id\":\"");
    out.append(json_escape(s.session_id.as_str()).as_str());
    out.append("\"");
    out.append(",\"sender_comp_id\":\"");
    out.append(json_escape(s.sender_comp_id.as_str()).as_str());
    out.append("\"");
    out.append(",\"target_comp_id\":\"");
    out.append(json_escape(s.target_comp_id.as_str()).as_str());
    out.append("\"");
    out.append(",\"state\":\"");
    out.append(json_escape(s.state.as_str()).as_str());
    out.append("\"");
    out.append(",\"outbound_seq\":");
    out.append(decimal(s.outbound_seq).as_str());
    out.append(",\"inbound_seq\":");
    out.append(decimal(s.inbound_seq).as_str());
    out.append(",\"messages_sent\":");
    out.append(decimal(s.messages_sent).as_str());
    out.append(",\"messages_received\":");
    out.append(decimal(s.messages_received).as_str());
    out.append(",\"last_activity_ms\":");
    out.append(decimal(s.last_activity_ms).as_str());
    out.append(",\"uptime_secs\":");
    out.append(decimal(s.uptime_secs).as_str());
    out.append("}");
    out
}

/// One session as a table row.
fn session_row_string(s: &SessionStatus) -> (html: String)
    ensures
        html@ == session_row(*s),
{
    let mut html = String::from_str("<tr><td>");
    html.append(s.session_id.as_str());
    html.append("</td><td>");
    html.append(s.sender_comp_id.as_str());
    html.append("</td><td>");
    html.append(s.target_comp_id.as_str());
    html.append("</td><td>");
    html.append(s.state.as_str());
    html.append("</td><td>");
    html.append(decimal(s.outbound_seq).as_str());
    html.append("</td><td>");
    html.append(decimal(s.inbound_seq).as_str());
    html.append("</td><td>");
    html.append(decimal(s.messages_sent).as_str());
    html.append("</td><td>");
    html.append(decimal(s.messages_received).as_str());
    html.append("</td><td>");
    html.append(decimal(s.last_activity_ms).as_str());
    html.append("</td><td>");
    html.append(decimal(s.uptime_secs).as_str());
    html.append("</td></tr>");
    html
}

// ---------------------------------------------------------------------------
// Session list
// ---------------------------------------------------------------------------

/// The index of the first session with identifier `id`, searching from `k`.
pub open spec fn session_index_from(ss: Seq<SessionStatus>, id: Seq<char>, k: int) -> Option<int>
    decreases ss.len() - k,
{
    if k < 0 || k >= ss.len() {
        None
    } else if ss[k].session_id@ == id {
        Some(k)
    } else {
        session_index_from(ss, id, k + 1)
    }
}

/// The list after `update_session(status)`: the first session with the same identifier is
/// replaced, or the status is appended.
pub open spec fn upsert_session(ss: Seq<SessionStatus>, status: SessionStatus) -> Seq<SessionStatus> {
    match session_index_from(ss, status.session_id@, 0) {
        Some(i) => ss.update(i, status),
        None => ss.push(status),
    }
}

/// The sessions whose identifier is not `id`, in order.
pub open spec fn without_session(ss: Seq<SessionStatus>, id: Seq<char>) -> Seq<SessionStatus>
    decreases ss.len(),
{
    if ss.len() == 0 {
        seq![]
    } else if ss.last().session_id@ == id {
        without_session(ss.drop_last(), id)
    } else {
        without_session(ss.drop_last(), id).push(ss.last())
    }
}

/// Milliseconds since the Unix epoch, read from the system clock with `SystemTime::now`;
/// nothing is stated of it: it is the clock's.
#[verifier::external_body]
fn unix_millis() -> u64 {
    std::time::SystemTime::now().duration_since(std::time::UNIX_EPOCH).unwrap_or_default().as_millis() as u64
}

// ---------------------------------------------------------------------------
// Dashboard
// ---------------------------------------------------------------------------

/// Dashboard server state: configuration, tracked sessions and health.
pub struct Dashboard {
    config: DashboardConfig,
    sessions: Vec<SessionStatus>,
    health: HealthStatus,
    start_time_ms: u64,
}

impl Dashboard {
    pub closed spec fn config_view(&self) -> DashboardConfig {
        self.config
    }

    pub closed spec fn sessions_view(&self) -> Seq<SessionStatus> {
        self.sessions@
    }

    pub closed spec fn health_view(&self) -> HealthStatus {
        self.health
    }

    /// The response to a request: anything but `GET` is refused, enabled endpoints render
    /// their content, and any other path is not found.
    pub open spec fn response(&self, method: Seq<char>, path: Seq<char>) -> (u16, Seq<char>, Seq<char>) {
        let c = self.config_view();
        let h = self.health_view();
        if method != "GET"@ {
            (405, "text/plain"@, "405 Method Not Allowed"@)
        } else if path == "/health"@ && c.enable_health_endpoint {
            (200, "application/json"@, health_json(h))
        } else if path == "/metrics"@ && c.enable_metrics_endpoint {
            (200, "text/plain; charset=utf-8"@, prometheus_text(h))
        } else if path == "/sessions"@ && c.enable_sessions_endpoint {
            (200, "application/json"@, sessions_json(self.sessions_view()))
        } else if path == "/"@ {
            (200, "text/html; charset=utf-8"@, html_page(c, h, self.sessions_view()))
        } else if path == "/api/latency"@ {
            (200, "application/json"@, latency_json())
        } else {
            (404, "text/plain"@, "404 Not Found"@)
        }
    }

    /// Create a new dashboard with the given configuration.
    pub fn new(config: DashboardConfig) -> (d: Self)
        ensures
            d.config_view() == config,
            d.sessions_view().len() == 0,
            d.health_view().healthy,
            d.health_view().version@ == ENGINE_VERSION@,
            d.health_view().uptime_secs == 0,
            d.health_view().active_sessions == 0,
            d.health_view().messages_processed == 0,
            d.health_view().engine_state@ == "starting"@,
    {
        let start_time_ms = unix_millis();
        Dashboard { config, sessions: Vec::new(), health: HealthStatus::default(), start_time_ms }
    }

    /// Add or update a session status. Updates in place if the session id matches.
    pub fn update_session(&mut self, status: SessionStatus)
        ensures
            final(self).sessions_view() == upsert_session(old(self).sessions_view(), status),
            final(self).config_view() == old(self).config_view(),
            final(self).health_view() == old(self).health_view(),
    {
        let mut i: usize = 0;
        while i < self.sessions.len()
            invariant
                i <= self.sessions@.len(),
                self.sessions@ == old(self).sessions@,
                self.config == old(self).config,
                self.health == old(self).health,
                session_index_from(self.sessions@, status.session_id@, 0) == session_index_from(
                    self.sessions@,
                    status.session_id@,
                    i as int,
                ),
            decreases self.sessions@.len() - i,
        {
            if str_equal(self.sessions[i].session_id.as_str(), status.session_id.as_str()) {
                self.sessions.set(i, status);
                return;
            }
            i = i + 1;
        }
        self.sessions.push(status);
    }

    /// Remove every session with the given id.
    pub fn remove_session(&mut self, session_id: &str)
        ensures
            final(self).sessions_view() == without_session(old(self).sessions_view(), session_id@),
            final(self).config_view() == old(self).config_view(),
            final(self).health_view() == old(self).health_view(),
    {
        let mut kept: Vec<SessionStatus> = Vec::new();
        let ghost all = self.sessions@;
        let mut i: usize = 0;
        assert(all.take(0) =~= seq![]);
        while i < self.sessions.len()
            invariant
                all == self.sessions@,
                i <= all.len(),
                kept@ == without_session(all.take(i as int), session_id@),
            decreases all.len() - i,
        {
            assert(all.take(i + 1).drop_last() =~= all.take(i as int));
            assert(all.take(i + 1).last() == all[i as int]);
            if !str_equal(self.sessions[i].session_id.as_str(), session_id) {
                kept.push(self.sessions[i].clone());
            }
            i = i + 1;
        }
        assert(all.take(i as int) =~= all);
        self.sessions = kept;
    }

    /// Update the health status.
    pub fn update_health(&mut self, health: HealthStatus)
        ensures
            final(self).health_view() == health,
            final(self).sessions_view() == old(self).sessions_view(),
            final(self).config_view() == old(self).config_view(),
    {
        self.health = health;
    }

    /// Return the current number of tracked sessions.
    pub fn session_count(&self) -> (n: usize)
        ensures
            n == self.sessions_view().len(),
    {
        self.sessions.len()
    }

    /// Route an HTTP request and return a response.
    pub fn handle_request(&self, method: &str, path: &str) -> (r: HttpResponse)
        ensures
            response_is(r, self.response(method@, path@).0, self.response(method@, path@).1, self.response(method@, path@).2),
    {
        if !str_equal(method, "GET") {
            return HttpResponse::method_not_allowed();
        }
        if str_equal(path, "/health") && self.config.enable_health_endpoint {
            HttpResponse::json(self.render_json_health())
        } else if str_equal(path, "/metrics") && self.config.enable_metrics_endpoint {
            HttpResponse::text(self.render_prometheus_metrics())
        } else if str_equal(path, "/sessions") && self.config.enable_sessions_endpoint {
            HttpResponse::json(self.render_json_sessions())
        } else if str_equal(path, "/") {
            HttpResponse::html(self.render_html_dashboard())
        } else if str_equal(path, "/api/latency") {
            HttpResponse::json(self.render_json_latency())
        } else {
            HttpResponse::not_found()
        }
    }

    /// Render health status as JSON.
    pub fn render_json_health(&self) -> (out: String)
        ensures
            out@ == health_json(self.health_view()),
    {
        let h = &self.health;
        let mut out = String::from_str("{");
        out.append("\"healthy\":");
        out.append(bool_string(h.healthy).as_str());
        out.append(",\"version\":\"");
        out.append(json_escape(h.version.as_str()).as_str());
        out.append("\"");
        out.append(",\"uptime_secs\":");
        out.append(decimal(h.uptime_secs).as_str());
        out.append(",\"active_sessions\":");
        out.append(decimal(h.active_sessions as u64).as_str());
        out.append(",\"messages_processed\":");
        out.append(decimal(h.messages_processed).as_str());
        out.append(",\"engine_state\":\"");
        out.append(json_escape(h.engine_state.as_str()).as_str());
        out.append("\"");
        out.append("}");
        out
    }

    /// Render sessions as a JSON array.
    pub fn render_json_sessions(&self) -> (out: String)
        ensures
            out@ == sessions_json(self.sessions_view()),
    {
        let ghost ss = self.sessions@;
        let mut out = String::from_str("[");
        let mut i: usize = 0;
        assert(ss.take(0) =~= seq![]);
        while i < self.sessions.len()
            invariant
                ss == self.sessions@,
                i <= ss.len(),
                out@ == "["@ + sessions_items(ss.take(i as int)),
            decreases ss.len() - i,
        {
            let s = &self.sessions[i];
            assert(ss.take(i + 1).drop_last() =~= ss.take(i as int));
            assert(ss.take(i + 1).last() == ss[i as int]);
            if i > 0 {
                out.append(",");
            } else {
                assert(ss.take(1) =~= seq![ss[0]]);
            }
            out.append(session_json_string(s).as_str());
            assert(out@ =~= "["@ + sessions_items(ss.take(i + 1)));
            i = i + 1;
        }
        assert(ss.take(i as int) =~= ss);
        out.append("]");
        out
    }

    /// Render the HTML dashboard page with auto-refresh.
    pub fn render_html_dashboard(&self) -> (html: String)
        ensures
            html@ == html_page(self.config_view(), self.health_view(), self.sessions_view()),
    {
        let h = &self.health;
        let refresh_secs = self.config.refresh_interval_ms / 1000;
        let mut html = String::from_str(PAGE_HEAD);
        html.append(decimal(refresh_secs).as_str());
        html.append(PAGE_TITLE);
        html.append("<p>Engine State: <span class=\"status ");
        if h.healthy {
            html.append("healthy");
        } else {
            html.append("unhealthy");
        }
        html.append("\">");
        html.append(h.engine_state.as_str());
        html.append("</span></p>");
        html.append(CARD_SESSIONS);
        html.append(decimal(h.active_sessions as u64).as_str());
        html.append(CARD_MESSAGES);
        html.append(decimal(h.messages_processed).as_str());
        html.append(CARD_UPTIME);
        html.append(decimal(h.uptime_secs).as_str());
        html.append(CARD_VERSION);
        html.append(h.version.as_str());
        html.append(CARDS_END);
        html.append("<h2>Sessions</h2>");
        let ghost before = html@;
        if self.sessions.len() == 0 {
            html.append("<p>No active sessions.</p>");
        } else {
            html.append(TABLE_HEADER);
            let ghost ss = self.sessions@;
            let ghost start = html@;
            let mut i: usize = 0;
            assert(ss.take(0) =~= seq![]);
            assert(start =~= start + session_rows(ss.take(0)));
            while i < self.sessions.len()
                invariant
                    ss == self.sessions@,
                    i <= ss.len(),
                    html@ == start + session_rows(ss.take(i as int)),
                decreases ss.len() - i,
            {
                let s = &self.sessions[i];
                assert(ss.take(i + 1).drop_last() =~= ss.take(i as int));
                assert(ss.take(i + 1).last() == ss[i as int]);
                html.append(session_row_string(s).as_str());
                assert(html@ =~= start + session_rows(ss.take(i + 1)));
                i = i + 1;
            }
            assert(ss.take(i as int) =~= ss);
            html.append("</table>");
        }
        assert(html@ =~= before + session_table(self.sessions@));
        html.append("</body></html>");
        html
    }

    /// Render the health status as Prometheus text-format metrics.
    fn render_prometheus_metrics(&self) -> (out: String)
        ensures
            out@ == prometheus_text(self.health_view()),
    {
        let h = &self.health;
        let mut out = String::from_str("# HELP velocitas_up Engine health (1=up, 0=down)\n");
        out.append("# TYPE velocitas_up gauge\n");
        out.append("velocitas_up ");
        if h.healthy {
            out.append("1");
        } else {
            out.append("0");
        }
        out.append("\n");
        out.append("# HELP velocitas_active_sessions Number of active FIX sessions\n");
        out.append("# TYPE velocitas_active_sessions gauge\n");
        out.append("velocitas_active_sessions ");
        out.append(decimal(h.active_sessions as u64).as_str());
        out.append("\n");
        out.append("# HELP velocitas_messages_processed_total Total messages processed\n");
        out.append("# TYPE velocitas_messages_processed_total counter\n");
        out.append("velocitas_messages_processed_total ");
        out.append(decimal(h.messages_processed).as_str());
        out.append("\n");
        out.append("# HELP velocitas_uptime_seconds Engine uptime\n");
        out.append("# TYPE velocitas_uptime_seconds gauge\n");
        out.append("velocitas_uptime_seconds ");
        out.append(decimal(h.uptime_secs).as_str());
        out.append("\n");
        out
    }

    /// Render the latency summary as JSON.
    fn render_json_latency(&self) -> (out: String)
        ensures
            out@ == latency_json(),
    {
        let mut out = String::from_str("{");
        out.append("\"p50_ns\":0");
        out.append(",\"p90_ns\":0");
        out.append(",\"p99_ns\":0");
        out.append(",\"p999_ns\":0");
        out.append(",\"count\":0");
        out.append("}");
        out
    }
}

} // verus!
