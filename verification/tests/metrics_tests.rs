use velocitas_fix::metrics::{Counter, Gauge};
#[test]
fn counter_inc_and_get() {
    let c = Counter::new("test_counter", "A test counter");
    assert_eq!(c.get(), 0);
    c.inc();
    assert_eq!(c.get(), 1);
    c.inc_by(9);
    assert_eq!(c.get(), 10);
}

#[test]
fn counter_reset() {
    let c = Counter::new("test_counter", "A test counter");
    c.inc_by(42);
    assert_eq!(c.get(), 42);
    c.reset();
    assert_eq!(c.get(), 0);
}

#[test]
fn counter_with_labels() {
    let c = Counter::with_labels(
        "test_counter",
        "A test counter",
        vec![("session", "FIX.4.4-SENDER-TARGET".to_string())],
    );
    c.inc();
    assert_eq!(c.get(), 1);

    let mut out = String::new();
    c.render(&mut out);
    assert!(out.contains("test_counter{session=\"FIX.4.4-SENDER-TARGET\"} 1"));
}

#[test]
fn gauge_inc_dec_set() {
    let g = Gauge::new("test_gauge", "A test gauge");
    assert_eq!(g.get(), 0);
    g.inc();
    g.inc();
    assert_eq!(g.get(), 2);
    g.dec();
    assert_eq!(g.get(), 1);
    g.set(100);
    assert_eq!(g.get(), 100);
    g.set(-5);
    assert_eq!(g.get(), -5);
}

