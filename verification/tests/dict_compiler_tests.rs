use velocitas_fix::dict_compiler::{CompiledDictionary, DictError, MessageCategory, TEST_DICTIONARY_XML};

#[test]
fn test_parse_field_and_message_counts() {
    let dict = CompiledDictionary::from_xml(TEST_DICTIONARY_XML).unwrap();
    assert_eq!(dict.field_count(), 15);
    assert_eq!(dict.message_count(), 3);
}

#[test]
fn test_fix_version() {
    let dict = CompiledDictionary::from_xml(TEST_DICTIONARY_XML).unwrap();
    assert_eq!(dict.fix_version, "FIX.4.4");
}

#[test]
fn test_lookup_field_known() {
    let dict = CompiledDictionary::from_xml(TEST_DICTIONARY_XML).unwrap();
    let field = dict.lookup_field(35).unwrap();
    assert_eq!(field.name, "MsgType");
    assert_eq!(field.field_type, "STRING");

    let field = dict.lookup_field(44).unwrap();
    assert_eq!(field.name, "Price");
    assert_eq!(field.field_type, "PRICE");
}

#[test]
fn test_lookup_field_unknown() {
    let dict = CompiledDictionary::from_xml(TEST_DICTIONARY_XML).unwrap();
    assert!(dict.lookup_field(99999).is_none());
    assert!(dict.lookup_field(999).is_none());
}

#[test]
fn test_lookup_message_known() {
    let dict = CompiledDictionary::from_xml(TEST_DICTIONARY_XML).unwrap();
    let msg = dict.lookup_message("D").unwrap();
    assert_eq!(msg.name, "NewOrderSingle");
    assert_eq!(msg.category, MessageCategory::Application);
}

#[test]
fn test_lookup_message_unknown() {
    let dict = CompiledDictionary::from_xml(TEST_DICTIONARY_XML).unwrap();
    assert!(dict.lookup_message("Z").is_none());
}

#[test]
fn test_validate_message_all_present() {
    let dict = CompiledDictionary::from_xml(TEST_DICTIONARY_XML).unwrap();
    let errors = dict.validate_message("A", &[98, 108]);
    assert!(errors.is_empty());
}

#[test]
fn test_validate_message_missing_required() {
    let dict = CompiledDictionary::from_xml(TEST_DICTIONARY_XML).unwrap();
    let errors = dict.validate_message("D", &[11, 55]);
    assert_eq!(errors.len(), 3);
    assert!(errors.iter().any(|e| e.contains("Side")));
    assert!(errors.iter().any(|e| e.contains("OrderQty")));
    assert!(errors.iter().any(|e| e.contains("OrdType")));
}

#[test]
fn test_o1_tag_index_lookup() {
    let dict = CompiledDictionary::from_xml(TEST_DICTIONARY_XML).unwrap();
    // tag_index provides direct indexing — verify it works for boundary tags
    assert!(dict.lookup_field(8).is_some());
    assert!(dict.lookup_field(112).is_some());
    // tags between defined values should be None
    assert!(dict.lookup_field(12).is_none());
    assert!(dict.lookup_field(100).is_none());
}

#[test]
fn test_field_with_enum_values() {
    let dict = CompiledDictionary::from_xml(TEST_DICTIONARY_XML).unwrap();
    let side = dict.lookup_field(54).unwrap();
    assert_eq!(side.name, "Side");
    assert_eq!(side.values.len(), 2);
    assert_eq!(side.values[0], ("1".to_string(), "BUY".to_string()));
    assert_eq!(side.values[1], ("2".to_string(), "SELL".to_string()));
}

#[test]
fn test_message_category_classification() {
    let dict = CompiledDictionary::from_xml(TEST_DICTIONARY_XML).unwrap();
    let heartbeat = dict.lookup_message("0").unwrap();
    assert_eq!(heartbeat.category, MessageCategory::Admin);
    let logon = dict.lookup_message("A").unwrap();
    assert_eq!(logon.category, MessageCategory::Admin);
    let nos = dict.lookup_message("D").unwrap();
    assert_eq!(nos.category, MessageCategory::Application);
}

#[test]
fn test_error_on_malformed_xml_no_fix_tag() {
    let bad_xml = "<notfix><fields></fields></notfix>";
    let result = CompiledDictionary::from_xml(bad_xml);
    assert!(result.is_err());
    match result.unwrap_err() {
        DictError::ParseError(msg) => assert!(msg.contains("no <fix> tag")),
        other => panic!("expected ParseError, got {:?}", other),
    }
}

#[test]
fn test_message_required_and_optional_fields() {
    let dict = CompiledDictionary::from_xml(TEST_DICTIONARY_XML).unwrap();
    let nos = dict.lookup_message("D").unwrap();
    assert_eq!(nos.required_fields, vec![11, 55, 54, 38, 40]);
    assert_eq!(nos.optional_fields, vec![44]);

    let hb = dict.lookup_message("0").unwrap();
    assert!(hb.required_fields.is_empty());
    assert_eq!(hb.optional_fields, vec![112]);
}
