use velocitas_fix::dict_compiler::{CompiledDictionary, DictError, MessageCategory, TEST_DICTIONARY_XML};
use velocitas_fix::dictionary::{lookup_field, standard_fields, FieldType};

fn err(xml: &str) -> DictError {
    CompiledDictionary::from_xml(xml).unwrap_err()
}

#[test]
fn dict_fault_messages() {
    assert_eq!(err("<fix major=\"4\""), DictError::ParseError("unclosed <fix> tag".to_string()));
    assert_eq!(err("<fix minor=\"4\">"), DictError::MissingAttribute("major".to_string()));
    assert_eq!(err("<fix major=\"4\">"), DictError::MissingAttribute("minor".to_string()));
    let head = "<fix major=\"5\" minor=\"0\">";
    assert_eq!(err(&format!("{head}<fields>")), DictError::ParseError("unclosed <fields> section".to_string()));
    assert_eq!(
        err(&format!("{head}<fields><field name=\"A\" type=\"INT\"/></fields>")),
        DictError::MissingAttribute("field number".to_string())
    );
    assert_eq!(
        err(&format!("{head}<fields><field number=\"x1\" name=\"A\" type=\"INT\"/></fields>")),
        DictError::InvalidFormat("invalid field number: x1".to_string())
    );
    assert_eq!(
        err(&format!("{head}<fields><field number=\"4294967296\" name=\"A\" type=\"INT\"/></fields>")),
        DictError::InvalidFormat("invalid field number: 4294967296".to_string())
    );
    assert_eq!(
        err(&format!("{head}<fields><field number=\"1\" type=\"INT\"/></fields>")),
        DictError::MissingAttribute("field name".to_string())
    );
    assert_eq!(
        err(&format!("{head}<fields><field number=\"1\" name=\"A\"/></fields>")),
        DictError::MissingAttribute("field type".to_string())
    );
    assert_eq!(err(&format!("{head}<messages>")), DictError::ParseError("unclosed <messages> section".to_string()));
    assert_eq!(
        err(&format!("{head}<messages><message msgtype=\"0\" msgcat=\"admin\"></message></messages>")),
        DictError::MissingAttribute("message name".to_string())
    );
    assert_eq!(
        err(&format!("{head}<messages><message name=\"H\" msgcat=\"admin\"></message></messages>")),
        DictError::MissingAttribute("message msgtype".to_string())
    );
    assert_eq!(
        err(&format!("{head}<messages><message name=\"H\" msgtype=\"0\"></message></messages>")),
        DictError::MissingAttribute("message msgcat".to_string())
    );
}

#[test]
fn dict_error_describe() {
    assert_eq!(DictError::ParseError("x".to_string()).describe(), "parse error: x");
    assert_eq!(DictError::MissingAttribute("y".to_string()).describe(), "missing attribute: y");
    assert_eq!(DictError::InvalidFormat("z".to_string()).describe(), "invalid format: z");
}

#[test]
fn dict_number_with_plus_sign_and_later_duplicates() {
    let xml = "<fix major=\"4\" minor=\"2\"><fields>\
        <field number=\"+7\" name=\"Seven\" type=\"INT\"/>\
        <field number=\"7\" name=\"Again\" type=\"STRING\"/>\
        <field number=\"9\" name=\"Seven\" type=\"INT\"/>\
        </fields><messages>\
        <message name=\"M\" msgtype=\"M\" msgcat=\"app\"><field name=\"Seven\" required=\"Y\"/><field name=\"Nope\" required=\"Y\"/></message>\
        </messages></fix>";
    let dict = CompiledDictionary::from_xml(xml).unwrap();
    assert_eq!(dict.fix_version, "FIX.4.2");
    assert_eq!(dict.field_count(), 3);
    assert_eq!(dict.lookup_field(7).unwrap().name, "Again");
    let m = dict.lookup_message("M").unwrap();
    assert_eq!(m.required_fields, vec![9]);
    assert_eq!(m.category, MessageCategory::Application);
}

#[test]
fn dict_no_sections_compiles_empty() {
    let dict = CompiledDictionary::from_xml("<fix major=\"1\" minor=\"1\">").unwrap();
    assert_eq!(dict.field_count(), 0);
    assert_eq!(dict.message_count(), 0);
    assert!(dict.lookup_field(0).is_none());
}

#[test]
fn dict_validation_reports() {
    let dict = CompiledDictionary::from_xml(TEST_DICTIONARY_XML).unwrap();
    assert_eq!(dict.validate_message("Z", &[]), vec!["unknown message type: Z".to_string()]);
    assert_eq!(
        dict.validate_message("D", &[11, 55, 38, 40]),
        vec!["missing required field: Side (tag 54)".to_string()]
    );
    assert!(dict.validate_message("0", &[]).is_empty());
}

#[test]
fn dictionary_standard_table() {
    let table = standard_fields();
    assert_eq!(table.len(), 28);
    let avg = lookup_field(6).unwrap();
    assert_eq!(avg.name, "AvgPx");
    assert_eq!(avg.field_type, FieldType::Price);
    assert_eq!(lookup_field(52).unwrap().field_type, FieldType::UtcTimestamp);
    assert!(lookup_field(0).is_none());
}
