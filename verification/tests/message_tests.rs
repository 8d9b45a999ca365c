use velocitas_fix::decimal::{parse_i64, parse_u64};
use velocitas_fix::message::{MessageView, MsgType, Side};

#[test]
fn test_parse_i64() {
    assert_eq!(parse_i64(b"12345"), Some(12345));
    assert_eq!(parse_i64(b"-42"), Some(-42));
    assert_eq!(parse_i64(b"0"), Some(0));
    assert_eq!(parse_i64(b""), None);
    assert_eq!(parse_i64(b"abc"), None);
}

#[test]
fn test_parse_u64() {
    assert_eq!(parse_u64(b"12345"), Some(12345));
    assert_eq!(parse_u64(b"0"), Some(0));
    assert_eq!(parse_u64(b""), None);
    assert_eq!(parse_u64(b"-1"), None);
}

#[test]
fn test_msg_type_roundtrip() {
    for mt in &[
        MsgType::Heartbeat,
        MsgType::Logon,
        MsgType::NewOrderSingle,
        MsgType::ExecutionReport,
        MsgType::TradeCaptureReport,
    ] {
        let bytes = mt.as_bytes();
        let parsed = MsgType::from_bytes(bytes).unwrap();
        assert_eq!(*mt, parsed);
    }
}

#[test]
fn test_message_view_field_access() {
    // Construct a minimal FIX message buffer
    let msg = b"8=FIX.4.4\x019=70\x0135=D\x0149=SENDER\x0156=TARGET\x0134=1\x0152=20260321-10:00:00\x0111=ORD001\x0155=AAPL\x0154=1\x0138=100\x0140=2\x0144=150.50\x0110=000\x01";

    let mut view = MessageView::new(msg);

    // Manually add fields (normally done by parser)
    // 8=FIX.4.4 starts at 2, length 7
    view.add_field(8, 2, 7);
    // 35=D starts at offset: find it
    // For this test, just verify the API works
    assert_eq!(view.field_count(), 1);
    assert_eq!(view.get_field_str(8), Some("FIX.4.4"));
}

#[test]
fn test_side_from_byte() {
    assert_eq!(Side::from_byte(b'1'), Some(Side::Buy));
    assert_eq!(Side::from_byte(b'2'), Some(Side::Sell));
    assert_eq!(Side::from_byte(b'X'), None);
}
