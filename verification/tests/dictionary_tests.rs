use velocitas_fix::dictionary::{FieldType, lookup_field};

#[test]
fn test_lookup_known_fields() {
    let field = lookup_field(35).unwrap();
    assert_eq!(field.name, "MsgType");
    assert_eq!(field.field_type, FieldType::String);

    let field = lookup_field(44).unwrap();
    assert_eq!(field.name, "Price");
    assert_eq!(field.field_type, FieldType::Price);
}

#[test]
fn test_lookup_unknown_field() {
    assert!(lookup_field(99999).is_none());
}
