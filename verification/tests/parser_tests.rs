use velocitas_fix::checksum;
use velocitas_fix::parser::{FixParser, ParseError};
use velocitas_fix::tags;

fn build_fix_msg(body_fields: &str) -> Vec<u8> {
    let soh = '\x01';
    let begin = format!("8=FIX.4.4{soh}");
    let body = format!("{body_fields}");
    let body_len = body.len();
    let header = format!("{begin}9={body_len}{soh}");
    let pre_checksum = format!("{header}{body}");
    let cs = checksum::compute(pre_checksum.as_bytes());
    let mut buf = [0u8; 3];
    checksum::format(cs, &mut buf);
    let cs_str = std::str::from_utf8(&buf).unwrap();
    let full = format!("{pre_checksum}10={cs_str}{soh}");
    full.into_bytes()
}

#[test]
fn test_parse_heartbeat() {
    let msg = build_fix_msg(&format!(
        "35=0\x0149=SENDER\x0156=TARGET\x0134=1\x0152=20260321-10:00:00\x01"
    ));

    let parser = FixParser::new();
    let (view, consumed) = parser.parse(&msg).expect("should parse heartbeat");

    assert_eq!(consumed, msg.len());
    assert_eq!(view.msg_type(), Some(b"0".as_slice()));
    assert_eq!(view.begin_string(), Some("FIX.4.4"));
    assert_eq!(view.sender_comp_id(), Some("SENDER"));
    assert_eq!(view.target_comp_id(), Some("TARGET"));
    assert_eq!(view.msg_seq_num(), Some(1));
    assert!(view.is_checksum_valid());
}

#[test]
fn test_parse_new_order_single() {
    let msg = build_fix_msg(&format!(
        "35=D\x0149=BANK\x0156=NYSE\x0134=42\x0152=20260321-10:00:00\x01\
         11=ORD001\x0155=AAPL\x0154=1\x0138=1000\x0140=2\x0144=150.50\x0159=0\x01\
         60=20260321-10:00:00\x01"
    ));

    let parser = FixParser::new();
    let (view, _consumed) = parser.parse(&msg).expect("should parse NOS");

    assert_eq!(view.msg_type(), Some(b"D".as_slice()));
    assert_eq!(view.get_field_str(tags::CL_ORD_ID), Some("ORD001"));
    assert_eq!(view.get_field_str(tags::SYMBOL), Some("AAPL"));
    assert_eq!(view.get_field_i64(tags::ORDER_QTY), Some(1000));
    assert_eq!(view.get_field_str(tags::PRICE), Some("150.50"));
}

#[test]
fn test_parse_unchecked() {
    let msg = build_fix_msg(&format!(
        "35=0\x0149=S\x0156=T\x0134=1\x0152=20260321-10:00:00\x01"
    ));

    let parser = FixParser::new_unchecked();
    let (view, _) = parser.parse(&msg).expect("should parse without validation");
    assert_eq!(view.msg_type(), Some(b"0".as_slice()));
}

#[test]
fn test_parse_invalid_checksum() {
    let mut msg = build_fix_msg(&format!(
        "35=0\x0149=S\x0156=T\x0134=1\x0152=20260321-10:00:00\x01"
    ));

    // Corrupt the checksum
    let len = msg.len();
    msg[len - 4] = b'0';
    msg[len - 3] = b'0';
    msg[len - 2] = b'0';

    let parser = FixParser::new();
    let result = parser.parse(&msg);
    assert_eq!(result.unwrap_err(), ParseError::InvalidChecksum);
}

#[test]
fn test_parse_missing_begin_string() {
    let msg = b"9=5\x0135=0\x0110=000\x01xxxxxxxxxxxxxxx";
    let parser = FixParser::new();
    let result = parser.parse(msg);
    assert_eq!(result.unwrap_err(), ParseError::MissingBeginString);
}

#[test]
fn test_parse_buffer_too_short() {
    let parser = FixParser::new();
    assert_eq!(parser.parse(b"8=FIX").unwrap_err(), ParseError::BufferTooShort);
}

#[test]
fn test_find_message_boundary() {
    let msg = build_fix_msg(&format!(
        "35=0\x0149=S\x0156=T\x0134=1\x0152=20260321-10:00:00\x01"
    ));

    let parser = FixParser::new();
    let boundary = parser.find_message_boundary(&msg);
    assert_eq!(boundary, Some(msg.len()));
}

#[test]
fn test_parse_execution_report() {
    let msg = build_fix_msg(&format!(
        "35=8\x0149=NYSE\x0156=BANK\x0134=100\x0152=20260321-10:00:00.123\x01\
         37=EXORD001\x0117=EXEC001\x01150=0\x0139=0\x0155=AAPL\x0154=1\x01\
         38=1000\x0132=0\x0131=0\x01151=1000\x0114=0\x016=0\x01"
    ));

    let parser = FixParser::new();
    let (view, _) = parser.parse(&msg).expect("should parse ExecRpt");

    assert_eq!(view.msg_type(), Some(b"8".as_slice()));
    assert_eq!(view.get_field_str(tags::ORDER_ID), Some("EXORD001"));
    assert_eq!(view.get_field_str(tags::EXEC_ID), Some("EXEC001"));
    assert_eq!(view.get_field_i64(tags::ORDER_QTY), Some(1000));
    assert!(view.field_count() >= 15);
}
