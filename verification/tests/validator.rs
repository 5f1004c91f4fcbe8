use valipower::grammar::validate_derive;
use valipower::grammar::Attribute;
use valipower::grammar::AttributeBody;
use valipower::grammar::FieldDecl;
use valipower::grammar::Literal;
use valipower::grammar::Specifier;
use valipower::grammar::Target;
use valipower::grammar::TypeRef;
use valipower::number::Number;
use valipower::record::FieldValue;
use valipower::record::Record;
use valipower::rules::FieldRuleSet;
use valipower::rules::RuleDescriptor;
use valipower::rules::RuleKind;
use valipower::rules::RuleTable;
use valipower::validator::validate;
use valipower::validator::verdict;
use valipower::validator::Subject;
use valipower::validator::Validate;
use valipower::ValidationError;
use valipower::ValidationErrors;

fn word(keyword: &str) -> Specifier {
    Specifier::Word(keyword.to_string())
}

fn assign(keyword: &str, bound: u128) -> Specifier {
    Specifier::Assignment(keyword.to_string(), Literal::Integer(Number::Unsigned(bound)))
}

fn field(name: &str, ty: &str, specifiers: Vec<Specifier>) -> FieldDecl {
    FieldDecl {
        name: Some(name.to_string()),
        ty: TypeRef::Named(ty.to_string()),
        attributes: vec![Attribute {
            name: "validate".to_string(),
            body: AttributeBody::Specifiers(specifiers),
        }],
    }
}

fn text_record(fields: &[(&str, &str)]) -> Record {
    let mut record = Record::new();
    for (name, value) in fields {
        record.push(name.to_string(), FieldValue::Text(value.to_string()));
    }
    record
}

fn pairs(list: &Vec<ValidationError>) -> Vec<(String, String)> {
    list.iter().map(|error| (error.code.clone(), error.message.clone())).collect()
}

fn pair(code: &str, message: &str) -> (String, String) {
    (code.to_string(), message.to_string())
}

#[test]
fn name_with_email_and_min_yields_two_errors() {
    let target = Target::Record(vec![field("field", "String", vec![word("email"), assign("min", 34)])]);
    let table = validate_derive(&target).unwrap();
    let errors = validate(&table, &text_record(&[("field", "abc")]));
    assert!(!errors.is_empty());
    assert_eq!(errors.fields(), vec!["field".to_string()]);
    assert_eq!(
        pairs(errors.get("field").unwrap()),
        vec![
            pair("email", "Must be a valid email address."),
            pair("min", "Length must be at least 34."),
        ]
    );
    assert!(errors.status_code().is_none());
}

#[test]
fn name_with_email_min_and_max_yields_three_errors() {
    let target = Target::Record(vec![field(
        "field",
        "String",
        vec![word("email"), assign("min", 34), assign("max", 3)],
    )]);
    let table = validate_derive(&target).unwrap();
    let errors = validate(&table, &text_record(&[("field", "abcd")]));
    assert_eq!(
        pairs(errors.get("field").unwrap()),
        vec![
            pair("email", "Must be a valid email address."),
            pair("min", "Length must be at least 34."),
            pair("max", "Length must be no more than 3."),
        ]
    );
}

#[test]
fn only_the_failing_rules_report_and_in_declaration_order() {
    let target = Target::Record(vec![field(
        "field",
        "String",
        vec![assign("max", 2), word("email"), assign("min", 1), assign("equals", 3), assign("max", 1)],
    )]);
    let table = validate_derive(&target).unwrap();
    let errors = validate(&table, &text_record(&[("field", "a@b")]));
    assert_eq!(
        pairs(errors.get("field").unwrap()),
        vec![
            pair("max", "Length must be no more than 2."),
            pair("equals", "Length must be exactly 3."),
            pair("max", "Length must be no more than 1."),
        ]
    );
}

#[test]
fn a_value_that_breaks_no_rule_has_no_errors() {
    let target = Target::Record(vec![field("field", "String", vec![word("email"), assign("min", 3)])]);
    let table = validate_derive(&target).unwrap();
    let errors = validate(&table, &text_record(&[("field", "a@b")]));
    assert!(errors.is_empty());
    assert!(errors.get("field").is_none());
}

#[test]
fn every_field_is_evaluated_in_declaration_order() {
    let target = Target::Record(vec![
        field("zeta", "String", vec![assign("min", 5)]),
        field("fine", "String", vec![assign("min", 1)]),
        field("age", "u8", vec![assign("min", 18), assign("max", 150)]),
        field("alpha", "String", vec![word("email")]),
    ]);
    let table = validate_derive(&target).unwrap();
    let mut record = text_record(&[("alpha", "nobody"), ("zeta", "abc"), ("fine", "ok")]);
    record.push("age".to_string(), FieldValue::Number(Number::Unsigned(7)));
    let errors = validate(&table, &record);
    assert_eq!(errors.fields(), vec!["zeta".to_string(), "age".to_string(), "alpha".to_string()]);
    assert_eq!(pairs(errors.get("zeta").unwrap()), vec![pair("min", "Length must be at least 5.")]);
    assert_eq!(pairs(errors.get("age").unwrap()), vec![pair("min", "Value must be at least 18.")]);
    assert_eq!(
        pairs(errors.get("alpha").unwrap()),
        vec![pair("email", "Must be a valid email address.")]
    );
    assert!(errors.get("fine").is_none());
}

#[test]
fn a_type_without_rules_validates_any_value() {
    let target = Target::Record(vec![
        FieldDecl { name: Some("a".to_string()), ty: TypeRef::Named("String".to_string()), attributes: vec![] },
        FieldDecl { name: Some("b".to_string()), ty: TypeRef::Complex, attributes: vec![] },
    ]);
    let table = validate_derive(&target).unwrap();
    assert!(validate(&table, &text_record(&[("a", ""), ("b", "no at sign")])).is_empty());
    assert!(validate(&table, &Record::new()).is_empty());
    let none = RuleTable { sets: vec![] };
    assert!(validate(&none, &text_record(&[("a", "")])).is_empty());
}

#[test]
fn a_rule_on_a_field_that_the_value_lacks_is_silent() {
    let target = Target::Record(vec![field("field", "String", vec![word("email"), assign("min", 3)])]);
    let table = validate_derive(&target).unwrap();
    assert!(validate(&table, &text_record(&[("other", "abc")])).is_empty());
}

#[test]
fn rules_in_two_sets_on_one_field_report_under_one_key() {
    let rule = |kind: RuleKind, bound: Option<u128>| RuleDescriptor {
        field_name: "field".to_string(),
        kind,
        parameter: bound.map(Number::Unsigned),
    };
    let table = RuleTable {
        sets: vec![
            FieldRuleSet { field: "field".to_string(), rules: vec![rule(RuleKind::MinLength, Some(9))] },
            FieldRuleSet { field: "field".to_string(), rules: vec![rule(RuleKind::Email, None)] },
        ],
    };
    let errors = validate(&table, &text_record(&[("field", "abc")]));
    assert_eq!(errors.len(), 1);
    assert_eq!(
        pairs(errors.get("field").unwrap()),
        vec![
            pair("min", "Length must be at least 9."),
            pair("email", "Must be a valid email address."),
        ]
    );
}

#[test]
fn the_first_field_of_a_name_is_the_one_that_counts() {
    let target = Target::Record(vec![field("field", "String", vec![word("email")])]);
    let table = validate_derive(&target).unwrap();
    assert!(validate(&table, &text_record(&[("field", "a@b"), ("field", "ab")])).is_empty());
    assert!(!validate(&table, &text_record(&[("field", "ab"), ("field", "a@b")])).is_empty());
}

#[test]
fn verdict_is_ok_exactly_for_no_errors() {
    assert!(verdict(ValidationErrors::new()).is_ok());
    let mut errors = ValidationErrors::new();
    errors.add("field", "min", "short");
    let failed = verdict(errors).err().unwrap();
    assert_eq!(pairs(failed.get("field").unwrap()), vec![pair("min", "short")]);
}

#[test]
fn a_subject_validates_against_its_own_rules() {
    let target = Target::Record(vec![field("field", "String", vec![word("email"), assign("min", 34)])]);
    let failing = Subject {
        rules: validate_derive(&target).unwrap(),
        record: text_record(&[("field", "abc")]),
    };
    let errors = failing.validate().err().unwrap();
    assert_eq!(errors.get("field").unwrap().len(), 2);
    let passing = Subject {
        rules: validate_derive(&target).unwrap(),
        record: text_record(&[("field", "someone@a-long-enough-domain.example.org")]),
    };
    assert!(passing.validate().is_ok());
}
