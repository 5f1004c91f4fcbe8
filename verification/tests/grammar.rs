use valipower::grammar::keyword_comparison;
use valipower::grammar::names_numeric_type;
use valipower::grammar::names_text_type;
use valipower::grammar::names_validation_attribute;
use valipower::grammar::numeric_class;
use valipower::grammar::parse_comparison_rule;
use valipower::grammar::parse_email_rule;
use valipower::grammar::parse_field;
use valipower::grammar::parse_specifier;
use valipower::grammar::validate_derive;
use valipower::grammar::Attribute;
use valipower::grammar::AttributeBody;
use valipower::grammar::BuildError;
use valipower::grammar::Comparison;
use valipower::grammar::FieldDecl;
use valipower::grammar::Literal;
use valipower::grammar::NumericClass;
use valipower::grammar::Specifier;
use valipower::grammar::Target;
use valipower::grammar::TypeRef;
use valipower::number::Number;
use valipower::rules::RuleDescriptor;
use valipower::rules::RuleKind;

fn named(name: &str) -> TypeRef {
    TypeRef::Named(name.to_string())
}

fn word(keyword: &str) -> Specifier {
    Specifier::Word(keyword.to_string())
}

fn assign(keyword: &str, bound: u128) -> Specifier {
    Specifier::Assignment(keyword.to_string(), Literal::Integer(Number::Unsigned(bound)))
}

fn validate(specifiers: Vec<Specifier>) -> Attribute {
    Attribute { name: "validate".to_string(), body: AttributeBody::Specifiers(specifiers) }
}

fn field(name: &str, ty: &str, attributes: Vec<Attribute>) -> FieldDecl {
    FieldDecl { name: Some(name.to_string()), ty: named(ty), attributes }
}

fn shape(rule: &RuleDescriptor) -> (String, RuleKind, Option<String>) {
    (rule.field_name.clone(), rule.kind, rule.parameter.map(|bound| bound.to_decimal()))
}

#[test]
fn only_validate_names_the_validation_attribute() {
    assert!(names_validation_attribute("validate"));
    assert!(!names_validation_attribute("valipower"));
    assert!(!names_validation_attribute("Validate"));
    assert!(!names_validation_attribute("serde"));
    assert!(!names_validation_attribute(""));
}

#[test]
fn type_names_are_told_apart() {
    assert!(names_text_type("String"));
    assert!(!names_text_type("string"));
    assert!(!names_text_type("str"));
    for name in [
        "u8", "u16", "u32", "u64", "u128", "usize", "i8", "i16", "i32", "i64", "i128", "isize",
        "f32", "f64",
    ] {
        assert!(names_numeric_type(name));
        assert!(!names_text_type(name));
    }
    assert!(!names_numeric_type("String"));
    assert!(!names_numeric_type("bool"));
    assert!(!names_numeric_type("u7"));
    assert!(!names_numeric_type(""));
}

#[test]
fn keywords_of_comparisons() {
    assert_eq!(keyword_comparison("min"), Some(Comparison::Min));
    assert_eq!(keyword_comparison("max"), Some(Comparison::Max));
    assert_eq!(keyword_comparison("equals"), Some(Comparison::Equals));
    assert_eq!(keyword_comparison("email"), None);
    assert_eq!(keyword_comparison("Min"), None);
    assert_eq!(keyword_comparison(""), None);
}

#[test]
fn comparisons_on_a_text_field_bound_its_length() {
    let bound = Literal::Integer(Number::Unsigned(34));
    let min = parse_comparison_rule(0, "field", &named("String"), Comparison::Min, &bound).unwrap();
    assert_eq!(shape(&min), ("field".to_string(), RuleKind::MinLength, Some("34".to_string())));
    let max = parse_comparison_rule(0, "field", &named("String"), Comparison::Max, &bound).unwrap();
    assert_eq!(shape(&max), ("field".to_string(), RuleKind::MaxLength, Some("34".to_string())));
    let equals =
        parse_comparison_rule(0, "field", &named("String"), Comparison::Equals, &bound).unwrap();
    assert_eq!(shape(&equals), ("field".to_string(), RuleKind::Equals, Some("34".to_string())));
}

#[test]
fn comparisons_on_a_number_field_bound_its_value() {
    let bound = Literal::Integer(Number::Signed(-2));
    let min = parse_comparison_rule(1, "age", &named("i32"), Comparison::Min, &bound).unwrap();
    assert_eq!(shape(&min), ("age".to_string(), RuleKind::MinValue, Some("-2".to_string())));
    let max = parse_comparison_rule(1, "age", &named("u64"), Comparison::Max, &bound).unwrap();
    assert_eq!(shape(&max), ("age".to_string(), RuleKind::MaxValue, Some("-2".to_string())));
}

#[test]
fn comparisons_fail_on_fields_they_do_not_fit() {
    let bound = Literal::Integer(Number::Unsigned(3));
    assert_eq!(
        parse_comparison_rule(2, "flag", &named("bool"), Comparison::Min, &bound).err(),
        Some(BuildError::IncompatibleFieldType { field: 2 })
    );
    assert_eq!(
        parse_comparison_rule(4, "list", &TypeRef::Complex, Comparison::Max, &bound).err(),
        Some(BuildError::ComplexFieldType { field: 4 })
    );
    assert_eq!(
        parse_comparison_rule(5, "age", &named("u8"), Comparison::Equals, &bound).err(),
        Some(BuildError::IncompatibleFieldType { field: 5 })
    );
    assert_eq!(
        parse_comparison_rule(6, "name", &named("String"), Comparison::Min, &Literal::Other).err(),
        Some(BuildError::MalformedSpecifier { field: 6 })
    );
}

#[test]
fn the_type_is_checked_before_the_bound() {
    assert_eq!(
        parse_comparison_rule(0, "flag", &named("bool"), Comparison::Min, &Literal::Other).err(),
        Some(BuildError::IncompatibleFieldType { field: 0 })
    );
    assert_eq!(
        parse_comparison_rule(0, "flag", &TypeRef::Complex, Comparison::Min, &Literal::Other).err(),
        Some(BuildError::ComplexFieldType { field: 0 })
    );
    assert_eq!(
        parse_comparison_rule(0, "age", &named("u8"), Comparison::Equals, &Literal::Other).err(),
        Some(BuildError::MalformedSpecifier { field: 0 })
    );
}

#[test]
fn email_needs_no_bound_and_a_text_field() {
    let rule = parse_specifier(0, "field", &named("String"), &word("email")).unwrap().unwrap();
    assert_eq!(shape(&rule), ("field".to_string(), RuleKind::Email, None));
    let rule = parse_email_rule(2, "mail", &named("String")).unwrap();
    assert_eq!(shape(&rule), ("mail".to_string(), RuleKind::Email, None));
}

#[test]
fn email_fails_on_a_field_that_is_no_text() {
    assert_eq!(
        parse_specifier(3, "age", &named("u32"), &word("email")).err(),
        Some(BuildError::IncompatibleFieldType { field: 3 })
    );
    assert_eq!(
        parse_specifier(4, "flag", &named("bool"), &word("email")).err(),
        Some(BuildError::IncompatibleFieldType { field: 4 })
    );
    assert_eq!(
        parse_specifier(5, "list", &TypeRef::Complex, &word("email")).err(),
        Some(BuildError::IncompatibleFieldType { field: 5 })
    );
    assert_eq!(
        parse_email_rule(6, "ratio", &named("f64")).err(),
        Some(BuildError::IncompatibleFieldType { field: 6 })
    );
    let target = Target::Record(vec![
        field("name", "String", vec![validate(vec![word("email")])]),
        field("age", "u8", vec![validate(vec![assign("min", 1), word("email")])]),
    ]);
    assert_eq!(
        validate_derive(&target).err(),
        Some(BuildError::IncompatibleFieldType { field: 1 })
    );
}

#[test]
fn number_types_have_their_class() {
    for name in ["u8", "u16", "u32", "u64", "u128", "usize"] {
        assert_eq!(numeric_class(name), Some(NumericClass::Unsigned));
    }
    for name in ["i8", "i16", "i32", "i64", "i128", "isize"] {
        assert_eq!(numeric_class(name), Some(NumericClass::Signed));
    }
    for name in ["f32", "f64"] {
        assert_eq!(numeric_class(name), Some(NumericClass::Fractional));
    }
    for name in ["String", "bool", "", "u", "i", "f", "u9", "int", "f16", "U8"] {
        assert_eq!(numeric_class(name), None);
    }
}

#[test]
fn unrecognized_specifiers_are_ignored() {
    let ty = named("String");
    assert!(parse_specifier(0, "field", &ty, &word("alphanumeric")).unwrap().is_none());
    assert!(parse_specifier(0, "field", &ty, &word("min")).unwrap().is_none());
    assert!(parse_specifier(0, "field", &ty, &assign("email", 3)).unwrap().is_none());
    assert!(parse_specifier(0, "field", &ty, &assign("range", 3)).unwrap().is_none());
    assert!(parse_specifier(0, "field", &ty, &Specifier::Group("length".to_string())).unwrap().is_none());
    assert!(parse_specifier(0, "field", &ty, &Specifier::Group("email".to_string())).unwrap().is_none());
    let other = Specifier::Assignment("range".to_string(), Literal::Other);
    assert!(parse_specifier(0, "field", &TypeRef::Complex, &other).unwrap().is_none());
}

#[test]
fn all_specifiers_of_a_field_are_kept_in_order() {
    let decl = field(
        "field",
        "String",
        vec![
            validate(vec![word("email"), assign("min", 34)]),
            Attribute { name: "serde".to_string(), body: AttributeBody::Malformed },
            validate(vec![word("unknown"), assign("max", 3), assign("min", 1)]),
        ],
    );
    let set = parse_field(0, &decl).unwrap();
    assert_eq!(set.field, "field");
    let shapes: Vec<_> = set.rules.iter().map(shape).collect();
    assert_eq!(
        shapes,
        vec![
            ("field".to_string(), RuleKind::Email, None),
            ("field".to_string(), RuleKind::MinLength, Some("34".to_string())),
            ("field".to_string(), RuleKind::MaxLength, Some("3".to_string())),
            ("field".to_string(), RuleKind::MinLength, Some("1".to_string())),
        ]
    );
}

#[test]
fn a_field_without_name_fails() {
    let decl = FieldDecl { name: None, ty: named("String"), attributes: vec![] };
    assert_eq!(parse_field(3, &decl).err(), Some(BuildError::UnnamedField { field: 3 }));
}

#[test]
fn a_malformed_validation_attribute_fails() {
    let decl = field(
        "field",
        "String",
        vec![Attribute { name: "validate".to_string(), body: AttributeBody::Malformed }],
    );
    assert_eq!(parse_field(1, &decl).err(), Some(BuildError::MalformedSpecifier { field: 1 }));
}

#[test]
fn a_record_gets_one_set_for_each_field() {
    let target = Target::Record(vec![
        field("name", "String", vec![validate(vec![assign("min", 3)])]),
        field("plain", "bool", vec![]),
        field("age", "u8", vec![validate(vec![assign("min", 18), assign("max", 150)])]),
    ]);
    let table = validate_derive(&target).unwrap();
    assert_eq!(table.sets.len(), 3);
    assert_eq!(table.sets[0].field, "name");
    assert_eq!(table.sets[0].rules.len(), 1);
    assert_eq!(table.sets[1].field, "plain");
    assert!(table.sets[1].rules.is_empty());
    assert_eq!(table.sets[2].field, "age");
    let shapes: Vec<_> = table.sets[2].rules.iter().map(shape).collect();
    assert_eq!(
        shapes,
        vec![
            ("age".to_string(), RuleKind::MinValue, Some("18".to_string())),
            ("age".to_string(), RuleKind::MaxValue, Some("150".to_string())),
        ]
    );
}

#[test]
fn an_empty_record_has_an_empty_table() {
    let table = validate_derive(&Target::Record(vec![])).unwrap();
    assert!(table.sets.is_empty());
}

#[test]
fn what_is_no_record_fails() {
    assert_eq!(validate_derive(&Target::TaggedUnion).err(), Some(BuildError::NotARecord));
    assert_eq!(validate_derive(&Target::Union).err(), Some(BuildError::NotARecord));
}

#[test]
fn the_first_failure_of_a_record_is_reported() {
    let target = Target::Record(vec![
        field("fine", "String", vec![validate(vec![word("email")])]),
        field("flag", "bool", vec![validate(vec![word("email"), assign("min", 1), assign("max", 2)])]),
        FieldDecl { name: None, ty: named("String"), attributes: vec![] },
    ]);
    assert_eq!(
        validate_derive(&target).err(),
        Some(BuildError::IncompatibleFieldType { field: 1 })
    );
}

#[test]
fn a_mismatch_behind_another_attribute_is_still_found() {
    let target = Target::Record(vec![field(
        "list",
        "String",
        vec![
            validate(vec![word("email")]),
            Attribute { name: "doc".to_string(), body: AttributeBody::Specifiers(vec![assign("min", 1)]) },
            validate(vec![Specifier::Assignment("max".to_string(), Literal::Other)]),
        ],
    )]);
    assert_eq!(validate_derive(&target).err(), Some(BuildError::MalformedSpecifier { field: 0 }));
}

#[test]
fn every_failure_has_its_words() {
    assert_eq!(BuildError::NotARecord.message(), "Validate can only be derived for structs");
    assert_eq!(BuildError::UnnamedField { field: 0 }.message(), "Field must have a name");
    assert_eq!(
        BuildError::MalformedSpecifier { field: 1 }.message(),
        "Failed to parse validation rules"
    );
    assert_eq!(
        BuildError::IncompatibleFieldType { field: 2 }.message(),
        "The `min` and `max` validators can only be applied to numeric or String fields, `email` and `equals` to String fields."
    );
    assert_eq!(
        BuildError::ComplexFieldType { field: 3 }.message(),
        "The `min` and `max` validators are not supported for this complex field type."
    );
}
