use velocitas_fix::groups::{RepeatingGroup, fills_group, legs_group, md_entries_group};
use velocitas_fix::message::MessageView;
/// Build a MessageView from raw FIX-like bytes (SOH-delimited tag=value pairs).
/// Skips real checksum/body-length validation — just populates field entries.
fn build_view(msg: &[u8]) -> MessageView<'_> {
    let mut view = MessageView::new(msg);
    let mut pos = 0;
    let len = msg.len();

    while pos < len {
        let mut tag: u32 = 0;
        while pos < len && msg[pos] != b'=' {
            if msg[pos] >= b'0' && msg[pos] <= b'9' {
                tag = tag * 10 + (msg[pos] - b'0') as u32;
            }
            pos += 1;
        }
        if pos >= len {
            break;
        }
        pos += 1; // skip '='
        let value_start = pos;
        while pos < len && msg[pos] != 0x01 {
            pos += 1;
        }
        let value_len = pos - value_start;
        view.add_field(tag, value_start as u32, value_len as u16);
        if pos < len {
            pos += 1; // skip SOH
        }
    }
    view
}

#[test]
fn test_parse_three_md_entries() {
    // MarketDataIncrementalRefresh with 3 MD entries
    let msg = b"268=3\x01\
                 269=0\x01270=100.25\x01271=500\x01279=0\x01\
                 269=1\x01270=99.75\x01271=300\x01279=0\x01\
                 269=2\x01270=100.50\x01271=200\x01279=1\x01";

    let view = build_view(msg);
    let def = md_entries_group();
    let (group, next_idx) = RepeatingGroup::parse(msg, view.fields(), 0, &def).unwrap();

    assert_eq!(group.count(), 3);
    assert_eq!(next_idx, view.field_count());

    // Entry 0
    let e0 = group.get_entry(0).unwrap();
    assert_eq!(e0.get_field_str(269), Some("0"));
    assert_eq!(e0.get_field_str(270), Some("100.25"));
    assert_eq!(e0.get_field_i64(271), Some(500));
    assert_eq!(e0.get_field_i64(279), Some(0));

    // Entry 1
    let e1 = group.get_entry(1).unwrap();
    assert_eq!(e1.get_field_str(269), Some("1"));
    assert_eq!(e1.get_field_str(270), Some("99.75"));
    assert_eq!(e1.get_field_i64(271), Some(300));

    // Entry 2
    let e2 = group.get_entry(2).unwrap();
    assert_eq!(e2.get_field_str(269), Some("2"));
    assert_eq!(e2.get_field_str(270), Some("100.50"));
    assert_eq!(e2.get_field_i64(271), Some(200));
    assert_eq!(e2.get_field_i64(279), Some(1));
}

#[test]
fn test_parse_nested_groups() {
    // An MD entry group where each entry can contain nested legs
    let msg = b"268=2\x01\
                 269=0\x01270=100.00\x01271=1000\x01\
                 555=2\x01600=AAPL\x01624=1\x01687=500\x01600=MSFT\x01624=2\x01687=500\x01\
                 269=1\x01270=99.50\x01271=2000\x01\
                 555=1\x01600=GOOG\x01624=1\x01687=2000\x01";

    let view = build_view(msg);
    let def = md_entries_group().with_nested(legs_group());
    let (group, next_idx) =
        RepeatingGroup::parse(msg, view.fields(), 0, &def).unwrap();

    assert_eq!(group.count(), 2);
    assert_eq!(next_idx, view.field_count());

    // Entry 0: has 2 nested legs
    let e0 = group.get_entry(0).unwrap();
    assert_eq!(e0.get_field_str(269), Some("0"));
    assert_eq!(e0.get_field_str(270), Some("100.00"));

    let legs0 = e0.get_nested(555).unwrap();
    assert_eq!(legs0.count(), 2);
    assert_eq!(legs0.get_entry(0).unwrap().get_field_str(600), Some("AAPL"));
    assert_eq!(legs0.get_entry(0).unwrap().get_field_i64(624), Some(1));
    assert_eq!(legs0.get_entry(0).unwrap().get_field_i64(687), Some(500));
    assert_eq!(legs0.get_entry(1).unwrap().get_field_str(600), Some("MSFT"));

    // Entry 1: has 1 nested leg
    let e1 = group.get_entry(1).unwrap();
    assert_eq!(e1.get_field_str(269), Some("1"));
    let legs1 = e1.get_nested(555).unwrap();
    assert_eq!(legs1.count(), 1);
    assert_eq!(legs1.get_entry(0).unwrap().get_field_str(600), Some("GOOG"));
}

#[test]
fn test_empty_group() {
    let msg = b"268=0\x01";
    let view = build_view(msg);
    let def = md_entries_group();
    let (group, next_idx) = RepeatingGroup::parse(msg, view.fields(), 0, &def).unwrap();

    assert_eq!(group.count(), 0);
    assert_eq!(next_idx, 1);
    assert!(group.get_entry(0).is_none());
}

#[test]
fn test_single_entry_group() {
    let msg = b"268=1\x01269=0\x01270=42.00\x01271=100\x01279=0\x01";
    let view = build_view(msg);
    let def = md_entries_group();
    let (group, _) = RepeatingGroup::parse(msg, view.fields(), 0, &def).unwrap();

    assert_eq!(group.count(), 1);
    let entry = group.get_entry(0).unwrap();
    assert_eq!(entry.get_field_str(269), Some("0"));
    assert_eq!(entry.get_field_str(270), Some("42.00"));
    assert_eq!(entry.get_field_i64(271), Some(100));
}

#[test]
fn test_get_field_returns_none_for_missing() {
    let msg = b"268=1\x01269=0\x01270=50.00\x01";
    let view = build_view(msg);
    let def = md_entries_group();
    let (group, _) = RepeatingGroup::parse(msg, view.fields(), 0, &def).unwrap();

    let entry = group.get_entry(0).unwrap();
    // tag 271 (MDEntrySize) not present in this entry
    assert!(entry.get_field(271).is_none());
    assert!(entry.get_field_str(271).is_none());
    assert!(entry.get_field_i64(271).is_none());
    // tag 279 (MDUpdateAction) not present either
    assert!(entry.get_field(279).is_none());
    // completely unknown tag
    assert!(entry.get_field(9999).is_none());
}

#[test]
fn test_get_field_i64_and_str() {
    let msg = b"1362=2\x01\
                 1363=FILL001\x011364=150\x011365=100\x01\
                 1363=FILL002\x011364=151\x011365=200\x01";

    let view = build_view(msg);
    let def = fills_group();
    let (group, _) = RepeatingGroup::parse(msg, view.fields(), 0, &def).unwrap();

    assert_eq!(group.count(), 2);

    let e0 = group.get_entry(0).unwrap();
    assert_eq!(e0.get_field_str(1363), Some("FILL001"));
    assert_eq!(e0.get_field_i64(1364), Some(150));
    assert_eq!(e0.get_field_i64(1365), Some(100));

    let e1 = group.get_entry(1).unwrap();
    assert_eq!(e1.get_field_str(1363), Some("FILL002"));
    assert_eq!(e1.get_field_i64(1364), Some(151));
    assert_eq!(e1.get_field_i64(1365), Some(200));
}

#[test]
fn test_get_nested_returns_none_when_absent() {
    let msg = b"268=1\x01269=0\x01270=50.00\x01";
    let view = build_view(msg);
    let def = md_entries_group();
    let (group, _) = RepeatingGroup::parse(msg, view.fields(), 0, &def).unwrap();

    let entry = group.get_entry(0).unwrap();
    assert!(entry.get_nested(555).is_none());
}

#[test]
fn test_parse_returns_none_for_wrong_count_tag() {
    let msg = b"269=0\x01";
    let view = build_view(msg);
    let def = md_entries_group();
    assert!(RepeatingGroup::parse(msg, view.fields(), 0, &def).is_none());
}

#[test]
fn test_group_at_offset_in_larger_message() {
    // Simulate fields before the group (e.g., header fields)
    let msg = b"35=X\x0149=SENDER\x0156=TARGET\x01\
                 268=2\x01\
                 269=0\x01270=100.00\x01271=500\x01\
                 269=1\x01270=99.00\x01271=300\x01\
                 10=000\x01";

    let view = build_view(msg);
    let def = md_entries_group();
    // Count tag is at field index 3 (after 35, 49, 56)
    let (group, next_idx) =
        RepeatingGroup::parse(msg, view.fields(), 3, &def).unwrap();

    assert_eq!(group.count(), 2);
    assert_eq!(group.get_entry(0).unwrap().get_field_str(270), Some("100.00"));
    assert_eq!(group.get_entry(1).unwrap().get_field_i64(271), Some(300));
    // next_idx should point to the checksum field (tag 10)
    assert_eq!(view.fields()[next_idx].tag, 10);
}

#[test]
fn test_legs_group_def() {
    let def = legs_group();
    assert_eq!(def.count_tag, 555);
    assert_eq!(def.delimiter_tag, 600);
    assert!(def.member_tags.contains(&600));
    assert!(def.member_tags.contains(&624));
    assert!(def.member_tags.contains(&687));
}

#[test]
fn test_fills_group_def() {
    let def = fills_group();
    assert_eq!(def.count_tag, 1362);
    assert_eq!(def.delimiter_tag, 1363);
    assert!(def.member_tags.contains(&1363));
    assert!(def.member_tags.contains(&1364));
    assert!(def.member_tags.contains(&1365));
}

#[test]
fn test_with_nested_builder() {
    let def = md_entries_group()
        .with_nested(legs_group())
        .with_nested(fills_group());
    assert_eq!(def.nested_groups.len(), 2);
    assert_eq!(def.nested_groups[0].count_tag, 555);
    assert_eq!(def.nested_groups[1].count_tag, 1362);
}
