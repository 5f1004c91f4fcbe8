use valipower::number::Number;
use valipower::record::FieldValue;
use valipower::record::Record;

#[test]
fn a_new_record_has_no_fields() {
    let record = Record::new();
    assert!(record.fields.is_empty());
    assert!(record.get("field").is_none());
}

#[test]
fn get_finds_the_first_field_of_a_name() {
    let mut record = Record::new();
    record.push("name".to_string(), FieldValue::Text("bob".to_string()));
    record.push("age".to_string(), FieldValue::Number(Number::Unsigned(41)));
    record.push("name".to_string(), FieldValue::Text("alice".to_string()));
    assert!(matches!(record.get("name"), Some(FieldValue::Text(value)) if value == "bob"));
    assert!(matches!(record.get("age"), Some(FieldValue::Number(Number::Unsigned(41)))));
    assert!(record.get("nam").is_none());
    assert!(record.get("").is_none());
    assert_eq!(record.fields.len(), 3);
}
