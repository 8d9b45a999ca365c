use velocitas_fix::serializer::{build_execution_report, build_heartbeat, build_logon, build_new_order_single};
use velocitas_fix::tags;
use velocitas_fix::parser::FixParser;
#[test]
fn test_serialize_heartbeat() {
    let mut buf = [0u8; 1024];
    let len = build_heartbeat(
        &mut buf,
        b"FIX.4.4",
        b"SENDER",
        b"TARGET",
        1,
        b"20260321-10:00:00",
    );

    let msg = &buf[..len];
    // Verify it parses back
    let parser = FixParser::new();
    let (view, consumed) = parser.parse(msg).expect("should parse serialized heartbeat");
    assert_eq!(consumed, len);
    assert_eq!(view.msg_type(), Some(b"0".as_slice()));
    assert_eq!(view.sender_comp_id(), Some("SENDER"));
    assert_eq!(view.target_comp_id(), Some("TARGET"));
    assert_eq!(view.msg_seq_num(), Some(1));
}

#[test]
fn test_serialize_new_order_single() {
    let mut buf = [0u8; 1024];
    let len = build_new_order_single(
        &mut buf,
        b"FIX.4.4",
        b"BANK_OMS",
        b"NYSE",
        42,
        b"20260321-10:00:00.123",
        b"ORD-00001",
        b"AAPL",
        b'1',
        1000,
        b'2',
        b"150.50",
    );

    let msg = &buf[..len];
    let parser = FixParser::new();
    let (view, _) = parser.parse(msg).expect("should parse serialized NOS");
    assert_eq!(view.msg_type(), Some(b"D".as_slice()));
    assert_eq!(view.get_field_str(tags::CL_ORD_ID), Some("ORD-00001"));
    assert_eq!(view.get_field_str(tags::SYMBOL), Some("AAPL"));
    assert_eq!(view.get_field_i64(tags::ORDER_QTY), Some(1000));
}

#[test]
fn test_serialize_execution_report() {
    let mut buf = [0u8; 2048];
    let len = build_execution_report(
        &mut buf,
        b"FIX.4.4",
        b"NYSE",
        b"BANK_OMS",
        100,
        b"20260321-10:00:00.456",
        b"NYSE-ORD-001",
        b"NYSE-EXEC-001",
        b"ORD-00001",
        b"AAPL",
        b'1',
        1000,
        500,
        b"150.50",
        500,
        500,
        b"150.50",
        b'F',
        b'1',
    );

    let msg = &buf[..len];
    let parser = FixParser::new();
    let (view, _) = parser.parse(msg).expect("should parse serialized ExecRpt");
    assert_eq!(view.msg_type(), Some(b"8".as_slice()));
    assert_eq!(view.get_field_str(tags::ORDER_ID), Some("NYSE-ORD-001"));
    assert_eq!(view.get_field_i64(tags::LAST_QTY), Some(500));
}

#[test]
fn test_roundtrip_large_seq_num() {
    let mut buf = [0u8; 1024];
    let len = build_heartbeat(
        &mut buf,
        b"FIX.4.4",
        b"S",
        b"T",
        999_999,
        b"20260321-10:00:00",
    );

    let parser = FixParser::new();
    let (view, _) = parser.parse(&buf[..len]).expect("should parse");
    assert_eq!(view.msg_seq_num(), Some(999_999));
}

#[test]
fn test_serialize_logon() {
    let mut buf = [0u8; 1024];
    let len = build_logon(
        &mut buf,
        b"FIX.4.4",
        b"CLIENT",
        b"SERVER",
        1,
        b"20260321-10:00:00",
        30,
    );

    let parser = FixParser::new();
    let (view, _) = parser.parse(&buf[..len]).expect("should parse logon");
    assert_eq!(view.msg_type(), Some(b"A".as_slice()));
    assert_eq!(view.get_field_i64(tags::HEARTBT_INT), Some(30));
}

#[test]
fn framer_cuts_built_message_whole() {
    let mut buf = [0u8; 512];
    let n = build_logon(&mut buf, b"FIX.4.4", b"BUYSIDE", b"SELLSIDE", 7, b"20260321-10:00:00.000", 30);
    let mut stream = buf[..n].to_vec();
    stream.extend_from_slice(b"8=FIX.4.4\x019=000012\x0135=0\x0110=0");
    let parser = FixParser::new();
    assert_eq!(parser.find_message_boundary(&stream), Some(n));
    assert_eq!(parser.find_message_boundary(&stream[..n - 1]), None);
}
