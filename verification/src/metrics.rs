//! Prometheus-style metrics: atomic counters and gauges, their text exposition format,
//! and the summary lines of a latency histogram.

use vstd::prelude::*;
use vstd::string::StringExecFns;
use std::sync::atomic::{AtomicI64, AtomicU64, Ordering};
use crate::acceptor::dec_text;
use crate::text::{decimal, signed_decimal, signed_text};

verus! {

// ---------------------------------------------------------------------------
// Text format
// ---------------------------------------------------------------------------

/// One label as `key="value"`.
pub open spec fn label_text(label: (&'static str, String)) -> Seq<char> {
    label.0@ + "=\""@ + label.1@ + "\""@
}

/// The labels joined by commas.
pub open spec fn labels_items(labels: Seq<(&'static str, String)>) -> Seq<char>
    decreases labels.len(),
{
    if labels.len() == 0 {
        seq![]
    } else if labels.len() == 1 {
        label_text(labels[0])
    } else {
        labels_items(labels.drop_last()) + ","@ + label_text(labels.last())
    }
}

/// The label set in braces.
pub open spec fn labels_text(labels: Seq<(&'static str, String)>) -> Seq<char> {
    "{"@ + labels_items(labels) + "}"@
}

/// Format labels as `{key="value",...}`.
pub fn format_labels(labels: &[(&'static str, String)]) -> (out: String)
    ensures
        out@ == labels_text(labels@),
{
    let mut out = String::from_str("{");
    let mut i: usize = 0;
    assert(labels@.take(0) =~= seq![]);
    while i < labels.len()
        invariant
            i <= labels@.len(),
            out@ == "{"@ + labels_items(labels@.take(i as int)),
        decreases labels@.len() - i,
    {
        assert(labels@.take(i + 1).drop_last() =~= labels@.take(i as int));
        assert(labels@.take(i + 1).last() == labels@[i as int]);
        if i > 0 {
            out.append(",");
        } else {
            assert(labels@.take(1) =~= seq![labels@[0]]);
        }
        let (k, v) = &labels[i];
        out.append(k);
        out.append("=\"");
        out.append(v.as_str());
        out.append("\"");
        assert(out@ =~= "{"@ + labels_items(labels@.take(i + 1)));
        i = i + 1;
    }
    assert(labels@.take(i as int) =~= labels@);
    out.append("}");
    out
}

/// The exposition of one metric: its help and type lines, then its sample line.
pub open spec fn metric_text(
    name: Seq<char>,
    help: Seq<char>,
    kind: Seq<char>,
    labels: Seq<(&'static str, String)>,
    value: Seq<char>,
) -> Seq<char> {
    "# HELP "@ + name + " "@ + help + "\n"@ + "# TYPE "@ + name + " "@ + kind + "\n"@ + name + (
    if labels.len() == 0 {
        seq![]
    } else {
        labels_text(labels)
    }) + " "@ + value + "\n"@
}

fn render_metric(
    out: &mut String,
    name: &str,
    help: &str,
    kind: &str,
    labels: &Vec<(&'static str, String)>,
    value: &str,
)
    ensures
        final(out)@ == old(out)@ + metric_text(name@, help@, kind@, labels@, value@),
{
    let ghost start = out@;
    out.append("# HELP ");
    out.append(name);
    out.append(" ");
    out.append(help);
    out.append("\n");
    out.append("# TYPE ");
    out.append(name);
    out.append(" ");
    out.append(kind);
    out.append("\n");
    out.append(name);
    if labels.len() > 0 {
        let rendered = format_labels(labels.as_slice());
        out.append(rendered.as_str());
    }
    out.append(" ");
    out.append(value);
    out.append("\n");
    assert(out@ =~= start + metric_text(name@, help@, kind@, labels@, value@));
}

// ---------------------------------------------------------------------------
// Counter and gauge
// ---------------------------------------------------------------------------

/// Atomic counter (monotonically increasing), shared between threads.
///
/// Its value lives in an atomic that other threads update concurrently, so no contract
/// below states what a read returns.
pub struct Counter {
    name: &'static str,
    help: &'static str,
    labels: Vec<(&'static str, String)>,
    value: AtomicU64,
}

impl Counter {
    pub closed spec fn name_view(&self) -> Seq<char> {
        self.name@
    }

    pub closed spec fn help_view(&self) -> Seq<char> {
        self.help@
    }

    pub closed spec fn labels_view(&self) -> Seq<(&'static str, String)> {
        self.labels@
    }

    /// Create a counter with the given name and help text.
    pub fn new(name: &'static str, help: &'static str) -> (c: Self)
        ensures
            c.name_view() == name@,
            c.help_view() == help@,
            c.labels_view().len() == 0,
    {
        Counter { name, help, labels: Vec::new(), value: AtomicU64::new(0) }
    }

    /// Create a counter with the given name, help text, and labels.
    pub fn with_labels(name: &'static str, help: &'static str, labels: Vec<(&'static str, String)>) -> (c: Self)
        ensures
            c.name_view() == name@,
            c.help_view() == help@,
            c.labels_view() == labels@,
    {
        Counter { name, help, labels, value: AtomicU64::new(0) }
    }

    /// Increment by 1.
    pub fn inc(&self) {
        self.value.fetch_add(1, Ordering::Relaxed);
    }

    /// Increment by `n`.
    pub fn inc_by(&self, n: u64) {
        self.value.fetch_add(n, Ordering::Relaxed);
    }

    /// Read the current value.
    pub fn get(&self) -> u64 {
        self.value.load(Ordering::Relaxed)
    }

    /// Reset to zero.
    pub fn reset(&self) {
        self.value.store(0, Ordering::Relaxed);
    }

    /// Render in Prometheus text format, with the value read at the time.
    pub fn render(&self, out: &mut String)
        ensures
            exists|v: u64|
                final(out)@ == old(out)@ + metric_text(
                    self.name_view(),
                    self.help_view(),
                    "counter"@,
                    self.labels_view(),
                    dec_text(v),
                ),
    {
        let v = self.get();
        let value = decimal(v);
        render_metric(out, self.name, self.help, "counter", &self.labels, value.as_str());
    }
}

/// Atomic gauge (can go up and down), shared between threads.
///
/// Its value lives in an atomic that other threads update concurrently, so no contract
/// below states what a read returns.
pub struct Gauge {
    name: &'static str,
    help: &'static str,
    labels: Vec<(&'static str, String)>,
    value: AtomicI64,
}

impl Gauge {
    pub closed spec fn name_view(&self) -> Seq<char> {
        self.name@
    }

    pub closed spec fn help_view(&self) -> Seq<char> {
        self.help@
    }

    pub closed spec fn labels_view(&self) -> Seq<(&'static str, String)> {
        self.labels@
    }

    /// Create a gauge with the given name and help text.
    pub fn new(name: &'static str, help: &'static str) -> (g: Self)
        ensures
            g.name_view() == name@,
            g.help_view() == help@,
            g.labels_view().len() == 0,
    {
        Gauge { name, help, labels: Vec::new(), value: AtomicI64::new(0) }
    }

    /// Create a gauge with the given name, help text, and labels.
    pub fn with_labels(name: &'static str, help: &'static str, labels: Vec<(&'static str, String)>) -> (g: Self)
        ensures
            g.name_view() == name@,
            g.help_view() == help@,
            g.labels_view() == labels@,
    {
        Gauge { name, help, labels, value: AtomicI64::new(0) }
    }

    /// Increment by 1.
    pub fn inc(&self) {
        self.value.fetch_add(1, Ordering::Relaxed);
    }

    /// Decrement by 1.
    pub fn dec(&self) {
        self.value.fetch_sub(1, Ordering::Relaxed);
    }

    /// Set to an absolute value.
    pub fn set(&self, val: i64) {
        self.value.store(val, Ordering::Relaxed);
    }

    /// Read the current value.
    pub fn get(&self) -> i64 {
        self.value.load(Ordering::Relaxed)
    }

    /// Render in Prometheus text format, with the value read at the time.
    pub fn render(&self, out: &mut String)
        ensures
            exists|v: i64|
                final(out)@ == old(out)@ + metric_text(
                    self.name_view(),
                    self.help_view(),
                    "gauge"@,
                    self.labels_view(),
                    signed_text(v),
                ),
    {
        let v = self.get();
        let value = signed_decimal(v);
        render_metric(out, self.name, self.help, "gauge", &self.labels, value.as_str());
    }
}

// ---------------------------------------------------------------------------
// Latency summaries
// ---------------------------------------------------------------------------

/// Maximum trackable value for latency histograms (10 seconds in nanoseconds).
pub const MAX_LATENCY_NS: u64 = 10_000_000_000;

/// The quantile labels of a summary, for the 50th, 90th, 99th and 99.9th percentiles:
/// each percentile divided by a hundred, as `f64` displays it.
pub open spec fn quantile_label(i: int) -> Seq<char> {
    if i == 0 {
        "0.5"@
    } else if i == 1 {
        "0.9"@
    } else if i == 2 {
        "0.99"@
    } else {
        "0.9990000000000001"@
    }
}

fn quantile_label_text(i: usize) -> (r: &'static str)
    requires
        i < 4,
    ensures
        r@ == quantile_label(i as int),
{
    if i == 0 {
        "0.5"
    } else if i == 1 {
        "0.9"
    } else if i == 2 {
        "0.99"
    } else {
        "0.9990000000000001"
    }
}

/// The quantile sample lines for the values at the four summary percentiles.
pub open spec fn quantile_lines(name: Seq<char>, values: Seq<u64>, n: int) -> Seq<char>
    decreases n,
{
    if n <= 0 {
        seq![]
    } else {
        quantile_lines(name, values, n - 1) + name + "{quantile=\""@ + quantile_label(n - 1)
            + "\"} "@ + dec_text(values[n - 1]) + "\n"@
    }
}

/// The exposition of a latency summary: help and type lines, one line per quantile, then
/// the count and the sum.
pub open spec fn summary_text(
    name: Seq<char>,
    help: Seq<char>,
    values: Seq<u64>,
    count: u64,
    sum: u64,
) -> Seq<char> {
    "# HELP "@ + name + " "@ + help + "\n"@ + "# TYPE "@ + name + " summary\n"@ + quantile_lines(
        name,
        values,
        4,
    ) + name + "_count "@ + dec_text(count) + "\n"@ + name + "_sum "@ + dec_text(sum) + "\n"@
}

/// Render a latency summary from the values at the 50th, 90th, 99th and 99.9th
/// percentiles, the number of recorded values and their sum.
pub fn render_summary(
    out: &mut String,
    name: &str,
    help: &str,
    values: &[u64; 4],
    count: u64,
    sum: u64,
)
    ensures
        final(out)@ == old(out)@ + summary_text(name@, help@, values@, count, sum),
{
    let ghost start = out@;
    out.append("# HELP ");
    out.append(name);
    out.append(" ");
    out.append(help);
    out.append("\n");
    out.append("# TYPE ");
    out.append(name);
    out.append(" summary\n");
    let ghost head = out@;
    let mut i: usize = 0;
    while i < 4
        invariant
            i <= 4,
            out@ == head + quantile_lines(name@, values@, i as int),
        decreases 4 - i,
    {
        out.append(name);
        out.append("{quantile=\"");
        out.append(quantile_label_text(i));
        out.append("\"} ");
        out.append(decimal(values[i]).as_str());
        out.append("\n");
        assert(out@ =~= head + quantile_lines(name@, values@, i + 1));
        i = i + 1;
    }
    out.append(name);
    out.append("_count ");
    out.append(decimal(count).as_str());
    out.append("\n");
    out.append(name);
    out.append("_sum ");
    out.append(decimal(sum).as_str());
    out.append("\n");
    assert(out@ =~= start + summary_text(name@, help@, values@, count, sum));
}

/// Point-in-time snapshot of all engine metrics.
#[derive(Debug, Clone)]
pub struct MetricsSnapshot {
    pub messages_parsed: u64,
    pub messages_sent: u64,
    pub messages_rejected: u64,
    pub journal_writes: u64,
    pub risk_checks_passed: u64,
    pub risk_checks_blocked: u64,
    pub kill_switch_activations: u64,
    pub active_sessions: i64,
    pub pending_resends: i64,
    pub parse_latency_p50_ns: u64,
    pub parse_latency_p99_ns: u64,
    pub serialize_latency_p50_ns: u64,
    pub serialize_latency_p99_ns: u64,
    pub wire_to_wire_latency_p50_ns: u64,
    pub wire_to_wire_latency_p99_ns: u64,
    pub journal_write_latency_p50_ns: u64,
    pub journal_write_latency_p99_ns: u64,
}

} // verus!
