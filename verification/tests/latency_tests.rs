use std::time::Duration;
use velocitas_fix::latency::{latency_report, sort_ascending, LatencyReport};

#[test]
fn latency_report_of_nothing_is_none() {
    assert_eq!(latency_report(&[]), None);
}

#[test]
fn latency_report_of_three() {
    let ds = [Duration::from_nanos(5), Duration::from_nanos(1), Duration::from_nanos(3)];
    let r = latency_report(&ds).unwrap();
    assert_eq!(
        r,
        LatencyReport { min: 1, mean: 3, p50: 3, p90: 5, p99: 5, p999: 5, max: 5 }
    );
}

#[test]
fn latency_report_percentiles_of_a_thousand() {
    let ds: Vec<Duration> = (1..=1000u64).rev().map(Duration::from_micros).collect();
    let r = latency_report(&ds).unwrap();
    assert_eq!(r.min, 1_000);
    assert_eq!(r.max, 1_000_000);
    assert_eq!(r.mean, 500_500);
    assert_eq!(r.p50, 501_000);
    assert_eq!(r.p90, 901_000);
    assert_eq!(r.p99, 991_000);
    assert_eq!(r.p999, 1_000_000);
}

#[test]
fn latency_report_mean_rounds_down() {
    let ds = [Duration::from_nanos(1), Duration::from_nanos(2)];
    let r = latency_report(&ds).unwrap();
    assert_eq!(r.mean, 1);
    assert_eq!(r.p50, 2);
    assert_eq!(r.p999, 2);
}

#[test]
fn sort_ascending_keeps_values() {
    let mut v = vec![9u64, 3, 7, 3, 0, 12, 1];
    sort_ascending(&mut v);
    assert_eq!(v, vec![0, 1, 3, 3, 7, 9, 12]);
    let mut e: Vec<u64> = Vec::new();
    sort_ascending(&mut e);
    assert!(e.is_empty());
}
