use velocitas_fix::timestamp::{HrTimestamp, TimestampSource, civil_from_days, tsc_to_nanos};

#[test]
fn elapsed_ns_works() {
    let earlier = HrTimestamp {
        nanos: 1_000_000,
        source: TimestampSource::System,
    };
    let later = HrTimestamp {
        nanos: 2_500_000,
        source: TimestampSource::System,
    };
    assert_eq!(later.elapsed_ns(earlier), 1_500_000);
}

#[test]
fn elapsed_ns_saturates_on_reverse() {
    let earlier = HrTimestamp {
        nanos: 5_000_000,
        source: TimestampSource::System,
    };
    let later = HrTimestamp {
        nanos: 1_000_000,
        source: TimestampSource::System,
    };
    assert_eq!(later.elapsed_ns(earlier), 0);
}

#[test]
fn fix_timestamp_ms_format() {
    // 2024-01-15 13:30:45.123 UTC
    // seconds since epoch: 1705325445
    // nanos: 1705325445_123_000_000
    let ts = HrTimestamp {
        nanos: 1_705_325_445_123_000_000,
        source: TimestampSource::System,
    };
    let buf = ts.to_fix_timestamp();
    let s = std::str::from_utf8(&buf).unwrap();
    assert_eq!(s, "20240115-13:30:45.123");
}

#[test]
fn fix_timestamp_us_format() {
    let ts = HrTimestamp {
        nanos: 1_705_325_445_123_456_000,
        source: TimestampSource::System,
    };
    let buf = ts.to_fix_timestamp_us();
    let s = std::str::from_utf8(&buf).unwrap();
    assert_eq!(s, "20240115-13:30:45.123456");
}

#[test]
fn fix_timestamp_ns_format() {
    let ts = HrTimestamp {
        nanos: 1_705_325_445_123_456_789,
        source: TimestampSource::System,
    };
    let buf = ts.to_fix_timestamp_ns();
    let s = std::str::from_utf8(&buf).unwrap();
    assert_eq!(s, "20240115-13:30:45.123456789");
}

#[test]
fn fix_timestamp_epoch_zero() {
    let ts = HrTimestamp {
        nanos: 0,
        source: TimestampSource::System,
    };
    let buf = ts.to_fix_timestamp();
    let s = std::str::from_utf8(&buf).unwrap();
    assert_eq!(s, "19700101-00:00:00.000");
}

#[test]
fn tsc_to_nanos_conversion() {
    // 1 GHz clock, 1 billion ticks = 1 second = 1_000_000_000 ns
    assert_eq!(tsc_to_nanos(1_000_000_000, 1_000_000_000), 1_000_000_000);
    // 3 GHz clock, 3 billion ticks = 1 second
    assert_eq!(tsc_to_nanos(3_000_000_000, 3_000_000_000), 1_000_000_000);
    // Zero frequency returns 0
    assert_eq!(tsc_to_nanos(12345, 0), 0);
}

#[test]
fn civil_from_days_epoch() {
    let (y, m, d) = civil_from_days(0);
    assert_eq!((y, m, d), (1970, 1, 1));
}

#[test]
fn civil_from_days_known_date() {
    // 2024-01-15 is day 19737 since epoch
    let (y, m, d) = civil_from_days(19737);
    assert_eq!((y, m, d), (2024, 1, 15));
}
