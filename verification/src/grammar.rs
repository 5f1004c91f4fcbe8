use vstd::prelude::*;
use vstd::string::StringExecFns;

use crate::number::Number;
use crate::record::ValueView;
use crate::rules::flags;
use crate::rules::measure;
use crate::rules::rule_views;
use crate::rules::set_views;
use crate::rules::FieldRuleSet;
use crate::rules::FieldRuleSetView;
use crate::rules::RuleDescriptor;
use crate::rules::RuleKind;
use crate::rules::RuleTable;
use crate::rules::RuleView;
use crate::text::text_eq;

verus! {

/// The value on the right of `keyword = value`.
#[derive(Debug)]
pub enum Literal {
    /// An integer literal.
    Integer(Number),
    /// Anything else.
    Other,
}

/// One specifier of a validation attribute.
#[derive(Debug)]
pub enum Specifier {
    /// A bare keyword, as in `email`.
    Word(String),
    /// A keyword with a value, as in `min = 3`.
    Assignment(String, Literal),
    /// A keyword with a list of its own, as in `length(..)`.
    Group(String),
}

/// What stands between the brackets of an attribute.
#[derive(Debug)]
pub enum AttributeBody {
    /// A list of specifiers.
    Specifiers(Vec<Specifier>),
    /// Something that is no list of specifiers.
    Malformed,
}

/// One attribute of a field.
#[derive(Debug)]
pub struct Attribute {
    pub name: String,
    pub body: AttributeBody,
}

/// The declared type of a field.
#[derive(Debug)]
pub enum TypeRef {
    /// A type written as one plain name, as in `String` or `u32`.
    Named(String),
    /// Any other type.
    Complex,
}

/// One declared field of a type.
#[derive(Debug)]
pub struct FieldDecl {
    pub name: Option<String>,
    pub ty: TypeRef,
    pub attributes: Vec<Attribute>,
}

/// The top-level shape of the type that rules are derived for.
#[derive(Debug)]
pub enum Target {
    /// A plain record with its fields in declaration order.
    Record(Vec<FieldDecl>),
    /// A tagged union.
    TaggedUnion,
    /// An untagged union.
    Union,
}

/// Why no rule table can be built for a type. `field` counts the fields in
/// declaration order, from zero.
#[derive(Clone, Copy, Debug, PartialEq, Eq, Structural)]
pub enum BuildError {
    /// The type is no plain record.
    NotARecord,
    /// A field has no name.
    UnnamedField { field: usize },
    /// A validation attribute holds no list of specifiers, or a comparison
    /// has no integer literal for its bound.
    MalformedSpecifier { field: usize },
    /// A rule stands on a field whose declared type it does not fit: a
    /// comparison on a field that is neither a text nor a number, or a rule
    /// for texts alone on a field that is no text.
    IncompatibleFieldType { field: usize },
    /// A comparison stands on a field whose type is not written as one plain name.
    ComplexFieldType { field: usize },
}

/// The words in which a build failure is reported.
pub open spec fn failure_words(error: BuildError) -> Seq<char> {
    match error {
        BuildError::NotARecord => "Validate can only be derived for structs"@,
        BuildError::UnnamedField { .. } => "Field must have a name"@,
        BuildError::MalformedSpecifier { .. } => "Failed to parse validation rules"@,
        BuildError::IncompatibleFieldType { .. } =>
            "The `min` and `max` validators can only be applied to numeric or String fields, `email` and `equals` to String fields."@,
        BuildError::ComplexFieldType { .. } =>
            "The `min` and `max` validators are not supported for this complex field type."@,
    }
}

impl BuildError {
    /// The words in which this failure is reported.
    pub fn message(&self) -> (words: String)
        ensures
            words@ == failure_words(*self),
    {
        match self {
            BuildError::NotARecord => String::from_str("Validate can only be derived for structs"),
            BuildError::UnnamedField { .. } => String::from_str("Field must have a name"),
            BuildError::MalformedSpecifier { .. } => String::from_str(
                "Failed to parse validation rules",
            ),
            BuildError::IncompatibleFieldType { .. } => String::from_str(
                "The `min` and `max` validators can only be applied to numeric or String fields, `email` and `equals` to String fields.",
            ),
            BuildError::ComplexFieldType { .. } => String::from_str(
                "The `min` and `max` validators are not supported for this complex field type.",
            ),
        }
    }
}

/// The comparisons that a specifier can ask for.
#[derive(Clone, Copy, Debug, PartialEq, Eq, Structural)]
pub enum Comparison {
    Min,
    Max,
    Equals,
}

/// The attribute whose specifiers are validation rules.
pub open spec fn is_validation_attribute(name: Seq<char>) -> bool {
    name == "validate"@
}

/// The type name whose values are texts, compared by length.
pub open spec fn is_text_type(name: Seq<char>) -> bool {
    name == "String"@
}

/// How the values of a number type are held.
#[derive(Clone, Copy, Debug, PartialEq, Eq, Structural)]
pub enum NumericClass {
    /// Whole numbers from zero up.
    Unsigned,
    /// Whole numbers of either sign.
    Signed,
    /// Numbers with a fraction.
    Fractional,
}

/// The class of the number type that `name` names, if it names one.
pub open spec fn class_of(name: Seq<char>) -> Option<NumericClass> {
    if name == "u8"@ || name == "u16"@ || name == "u32"@ || name == "u64"@ || name == "u128"@
        || name == "usize"@ {
        Some(NumericClass::Unsigned)
    } else if name == "i8"@ || name == "i16"@ || name == "i32"@ || name == "i64"@ || name
        == "i128"@ || name == "isize"@ {
        Some(NumericClass::Signed)
    } else if name == "f32"@ || name == "f64"@ {
        Some(NumericClass::Fractional)
    } else {
        None
    }
}

/// The type names whose values are numbers, compared by value.
pub open spec fn is_numeric_type(name: Seq<char>) -> bool {
    class_of(name) is Some
}

/// The comparison that a keyword asks for, if it asks for one.
pub open spec fn comparison_of(keyword: Seq<char>) -> Option<Comparison> {
    if keyword == "min"@ {
        Some(Comparison::Min)
    } else if keyword == "max"@ {
        Some(Comparison::Max)
    } else if keyword == "equals"@ {
        Some(Comparison::Equals)
    } else {
        None
    }
}

/// The rule that a comparison on field number `index`, called `field` and
/// declared with type `ty`, stands for: a rule on the length where the type
/// is a text type, one on the value where it is a number type.
pub open spec fn comparison_rule(
    index: usize,
    field: Seq<char>,
    ty: TypeRef,
    comparison: Comparison,
    literal: Literal,
) -> Result<RuleView, BuildError> {
    match ty {
        TypeRef::Complex => Err(BuildError::ComplexFieldType { field: index }),
        TypeRef::Named(name) => {
            if !is_text_type(name@) && !is_numeric_type(name@) {
                Err(BuildError::IncompatibleFieldType { field: index })
            } else {
                match literal {
                    Literal::Other => Err(BuildError::MalformedSpecifier { field: index }),
                    Literal::Integer(bound) => {
                        if is_text_type(name@) {
                            Ok(
                                RuleView {
                                    field,
                                    kind: match comparison {
                                        Comparison::Min => RuleKind::MinLength,
                                        Comparison::Max => RuleKind::MaxLength,
                                        Comparison::Equals => RuleKind::Equals,
                                    },
                                    parameter: Some(bound.value()),
                                },
                            )
                        } else {
                            match comparison {
                                Comparison::Min => Ok(
                                    RuleView {
                                        field,
                                        kind: RuleKind::MinValue,
                                        parameter: Some(bound.value()),
                                    },
                                ),
                                Comparison::Max => Ok(
                                    RuleView {
                                        field,
                                        kind: RuleKind::MaxValue,
                                        parameter: Some(bound.value()),
                                    },
                                ),
                                Comparison::Equals => Err(
                                    BuildError::IncompatibleFieldType { field: index },
                                ),
                            }
                        }
                    },
                }
            }
        },
    }
}

/// The rule that `email` on field number `index`, called `field` and
/// declared with type `ty`, stands for: the email rule where the type is a
/// text type, and a failure on every other type.
pub open spec fn email_rule(index: usize, field: Seq<char>, ty: TypeRef) -> Result<
    RuleView,
    BuildError,
> {
    match ty {
        TypeRef::Named(name) => if is_text_type(name@) {
            Ok(RuleView { field, kind: RuleKind::Email, parameter: None })
        } else {
            Err(BuildError::IncompatibleFieldType { field: index })
        },
        TypeRef::Complex => Err(BuildError::IncompatibleFieldType { field: index }),
    }
}

/// The rule that one specifier stands for; none where its keyword is not
/// one of `email`, `min`, `max` and `equals` in the form that belongs to it.
pub open spec fn specifier_rule(index: usize, field: Seq<char>, ty: TypeRef, specifier: Specifier) -> Result<
    Option<RuleView>,
    BuildError,
> {
    match specifier {
        Specifier::Word(keyword) => {
            if keyword@ == "email"@ {
                match email_rule(index, field, ty) {
                    Ok(rule) => Ok(Some(rule)),
                    Err(error) => Err(error),
                }
            } else {
                Ok(None)
            }
        },
        Specifier::Group(_) => Ok(None),
        Specifier::Assignment(keyword, literal) => match comparison_of(keyword@) {
            None => Ok(None),
            Some(comparison) => match comparison_rule(index, field, ty, comparison, literal) {
                Ok(rule) => Ok(Some(rule)),
                Err(error) => Err(error),
            },
        },
    }
}

/// The rules that a list of specifiers stands for, one for each specifier
/// that stands for a rule, in the order of the list; the first failure where
/// one of them fails.
pub open spec fn specifier_rules(
    index: usize,
    field: Seq<char>,
    ty: TypeRef,
    specifiers: Seq<Specifier>,
) -> Result<Seq<RuleView>, BuildError>
    decreases specifiers.len(),
{
    if specifiers.len() == 0 {
        Ok(Seq::empty())
    } else {
        match specifier_rules(index, field, ty, specifiers.drop_last()) {
            Err(error) => Err(error),
            Ok(rules) => match specifier_rule(index, field, ty, specifiers.last()) {
                Err(error) => Err(error),
                Ok(Some(rule)) => Ok(rules.push(rule)),
                Ok(None) => Ok(rules),
            },
        }
    }
}

/// The rules that one attribute adds: those of its specifiers where it is a
/// validation attribute, none where it is another one.
pub open spec fn attribute_rules(index: usize, field: Seq<char>, ty: TypeRef, attribute: Attribute) -> Result<
    Seq<RuleView>,
    BuildError,
> {
    if !is_validation_attribute(attribute.name@) {
        Ok(Seq::empty())
    } else {
        match attribute.body {
            AttributeBody::Malformed => Err(BuildError::MalformedSpecifier { field: index }),
            AttributeBody::Specifiers(specifiers) => specifier_rules(index, field, ty, specifiers@),
        }
    }
}

/// The rules of one field: those of its attributes, one attribute after the other.
pub open spec fn field_rules(index: usize, field: Seq<char>, ty: TypeRef, attributes: Seq<Attribute>) -> Result<
    Seq<RuleView>,
    BuildError,
>
    decreases attributes.len(),
{
    if attributes.len() == 0 {
        Ok(Seq::empty())
    } else {
        match field_rules(index, field, ty, attributes.drop_last()) {
            Err(error) => Err(error),
            Ok(rules) => match attribute_rules(index, field, ty, attributes.last()) {
                Err(error) => Err(error),
                Ok(more) => Ok(rules + more),
            },
        }
    }
}

/// The rule set of the field declared at `index`.
pub open spec fn field_set(index: usize, field: FieldDecl) -> Result<FieldRuleSetView, BuildError> {
    match field.name {
        None => Err(BuildError::UnnamedField { field: index }),
        Some(name) => match field_rules(index, name@, field.ty, field.attributes@) {
            Err(error) => Err(error),
            Ok(rules) => Ok(FieldRuleSetView { field: name@, rules }),
        },
    }
}

/// The rule sets of the first `count` fields, one for each; the first failure
/// where one of the fields fails.
pub open spec fn field_sets(fields: Seq<FieldDecl>, count: nat) -> Result<Seq<FieldRuleSetView>, BuildError>
    decreases count,
{
    if count == 0 || count > fields.len() {
        Ok(Seq::empty())
    } else {
        match field_sets(fields, (count - 1) as nat) {
            Err(error) => Err(error),
            Ok(sets) => match field_set((count - 1) as usize, fields[count - 1]) {
                Err(error) => Err(error),
                Ok(set) => Ok(sets.push(set)),
            },
        }
    }
}

/// The rule table of a type: one rule set for each field of a plain record.
pub open spec fn rule_table(target: Target) -> Result<Seq<FieldRuleSetView>, BuildError> {
    match target {
        Target::Record(fields) => field_sets(fields@, fields@.len()),
        _ => Err(BuildError::NotARecord),
    }
}

/// Specifiers compose: the rules of two lists in a row are the rules of the
/// first followed by those of the second, so that no specifier replaces another.
pub proof fn lemma_specifiers_compose(
    index: usize,
    field: Seq<char>,
    ty: TypeRef,
    first: Seq<Specifier>,
    second: Seq<Specifier>,
)
    ensures
        specifier_rules(index, field, ty, first + second) == match specifier_rules(
            index,
            field,
            ty,
            first,
        ) {
            Err(error) => Err::<Seq<RuleView>, BuildError>(error),
            Ok(rules) => match specifier_rules(index, field, ty, second) {
                Err(error) => Err::<Seq<RuleView>, BuildError>(error),
                Ok(more) => Ok::<Seq<RuleView>, BuildError>(rules + more),
            },
        },
    decreases second.len(),
{
    if second.len() == 0 {
        assert(first + second =~= first);
        if let Ok(rules) = specifier_rules(index, field, ty, first) {
            assert(rules + Seq::<RuleView>::empty() =~= rules);
        }
    } else {
        assert((first + second).drop_last() =~= first + second.drop_last());
        assert((first + second).last() == second.last());
        lemma_specifiers_compose(index, field, ty, first, second.drop_last());
        if let Ok(rules) = specifier_rules(index, field, ty, first) {
            if let Ok(more) = specifier_rules(index, field, ty, second.drop_last()) {
                if let Ok(Some(rule)) = specifier_rule(index, field, ty, second.last()) {
                    assert((rules + more).push(rule) =~= rules + more.push(rule));
                }
            }
        }
    }
}

/// On a field of a text type or of a number type, `min = m` finds fault
/// with exactly the texts shorter than `m` or the numbers below `m`, and
/// `max = m` with exactly the texts longer than `m` or the numbers above `m`.
pub proof fn lemma_min_and_max_compare(
    index: usize,
    field: Seq<char>,
    ty: TypeRef,
    bound: Number,
    value: ValueView,
)
    requires
        ty matches TypeRef::Named(name) && if is_text_type(name@) {
            value is Text
        } else {
            is_numeric_type(name@) && value is Number
        },
    ensures
        comparison_rule(index, field, ty, Comparison::Min, Literal::Integer(bound)) matches Ok(rule)
            && (flags(rule, Some(value)) <==> measure(value) < bound.value()),
        comparison_rule(index, field, ty, Comparison::Max, Literal::Integer(bound)) matches Ok(rule)
            && (flags(rule, Some(value)) <==> measure(value) > bound.value()),
{
}

/// A failure among the first specifiers is the failure of the whole list.
pub proof fn lemma_specifier_failure_stands(
    index: usize,
    field: Seq<char>,
    ty: TypeRef,
    specifiers: Seq<Specifier>,
    upto: int,
)
    requires
        0 <= upto <= specifiers.len(),
        specifier_rules(index, field, ty, specifiers.take(upto)) is Err,
    ensures
        specifier_rules(index, field, ty, specifiers) == specifier_rules(
            index,
            field,
            ty,
            specifiers.take(upto),
        ),
    decreases specifiers.len(),
{
    if upto == specifiers.len() {
        assert(specifiers.take(upto) =~= specifiers);
    } else {
        assert(specifiers.drop_last().take(upto) =~= specifiers.take(upto));
        lemma_specifier_failure_stands(index, field, ty, specifiers.drop_last(), upto);
    }
}

/// A failure among the first attributes is the failure of the whole field.
pub proof fn lemma_attribute_failure_stands(
    index: usize,
    field: Seq<char>,
    ty: TypeRef,
    attributes: Seq<Attribute>,
    upto: int,
)
    requires
        0 <= upto <= attributes.len(),
        field_rules(index, field, ty, attributes.take(upto)) is Err,
    ensures
        field_rules(index, field, ty, attributes) == field_rules(index, field, ty, attributes.take(upto)),
    decreases attributes.len(),
{
    if upto == attributes.len() {
        assert(attributes.take(upto) =~= attributes);
    } else {
        assert(attributes.drop_last().take(upto) =~= attributes.take(upto));
        lemma_attribute_failure_stands(index, field, ty, attributes.drop_last(), upto);
    }
}

/// A failure among the first fields is the failure of the whole record.
pub proof fn lemma_field_failure_stands(fields: Seq<FieldDecl>, upto: nat, count: nat)
    requires
        upto <= count <= fields.len(),
        field_sets(fields, upto) is Err,
    ensures
        field_sets(fields, count) == field_sets(fields, upto),
    decreases count,
{
    if upto < count {
        lemma_field_failure_stands(fields, upto, (count - 1) as nat);
    }
}

/// Whether `name` is the attribute whose specifiers are validation rules.
pub fn names_validation_attribute(name: &str) -> (named: bool)
    ensures
        named == is_validation_attribute(name@),
{
    text_eq(name, "validate")
}

/// Whether `name` is the type name whose values are texts.
pub fn names_text_type(name: &str) -> (named: bool)
    ensures
        named == is_text_type(name@),
{
    text_eq(name, "String")
}

/// The class of the number type that `name` names, if it names one.
pub fn numeric_class(name: &str) -> (class: Option<NumericClass>)
    ensures
        class == class_of(name@),
{
    if text_eq(name, "u8") || text_eq(name, "u16") || text_eq(name, "u32") || text_eq(name, "u64")
        || text_eq(name, "u128") || text_eq(name, "usize") {
        Some(NumericClass::Unsigned)
    } else if text_eq(name, "i8") || text_eq(name, "i16") || text_eq(name, "i32") || text_eq(
        name,
        "i64",
    ) || text_eq(name, "i128") || text_eq(name, "isize") {
        Some(NumericClass::Signed)
    } else if text_eq(name, "f32") || text_eq(name, "f64") {
        Some(NumericClass::Fractional)
    } else {
        None
    }
}

/// Whether `name` is one of the type names whose values are numbers.
pub fn names_numeric_type(name: &str) -> (named: bool)
    ensures
        named == is_numeric_type(name@),
{
    numeric_class(name).is_some()
}

/// The comparison that `keyword` asks for, if it asks for one.
pub fn keyword_comparison(keyword: &str) -> (comparison: Option<Comparison>)
    ensures
        comparison == comparison_of(keyword@),
{
    if text_eq(keyword, "min") {
        Some(Comparison::Min)
    } else if text_eq(keyword, "max") {
        Some(Comparison::Max)
    } else if text_eq(keyword, "equals") {
        Some(Comparison::Equals)
    } else {
        None
    }
}

/// Checks a comparison against the declared type of its field and builds its rule.
pub fn parse_comparison_rule(
    index: usize,
    field_name: &str,
    field_type: &TypeRef,
    comparison: Comparison,
    literal: &Literal,
) -> (built: Result<RuleDescriptor, BuildError>)
    ensures
        match built {
            Ok(rule) => comparison_rule(index, field_name@, *field_type, comparison, *literal) == Ok::<
                RuleView,
                BuildError,
            >(rule@) && rule.wf(),
            Err(error) => comparison_rule(index, field_name@, *field_type, comparison, *literal)
                == Err::<RuleView, BuildError>(error),
        },
{
    let name = match field_type {
        TypeRef::Complex => {
            return Err(BuildError::ComplexFieldType { field: index });
        },
        TypeRef::Named(name) => name,
    };
    let text = names_text_type(name.as_str());
    if !text && !names_numeric_type(name.as_str()) {
        return Err(BuildError::IncompatibleFieldType { field: index });
    }
    let bound = match literal {
        Literal::Other => {
            return Err(BuildError::MalformedSpecifier { field: index });
        },
        Literal::Integer(bound) => *bound,
    };
    let kind = if text {
        match comparison {
            Comparison::Min => RuleKind::MinLength,
            Comparison::Max => RuleKind::MaxLength,
            Comparison::Equals => RuleKind::Equals,
        }
    } else {
        match comparison {
            Comparison::Min => RuleKind::MinValue,
            Comparison::Max => RuleKind::MaxValue,
            Comparison::Equals => {
                return Err(BuildError::IncompatibleFieldType { field: index });
            },
        }
    };
    Ok(RuleDescriptor { field_name: String::from_str(field_name), kind, parameter: Some(bound) })
}

/// Checks `email` against the declared type of its field and builds its rule.
pub fn parse_email_rule(index: usize, field_name: &str, field_type: &TypeRef) -> (built: Result<
    RuleDescriptor,
    BuildError,
>)
    ensures
        match built {
            Ok(rule) => email_rule(index, field_name@, *field_type) == Ok::<RuleView, BuildError>(
                rule@,
            ) && rule.wf(),
            Err(error) => email_rule(index, field_name@, *field_type) == Err::<
                RuleView,
                BuildError,
            >(error),
        },
{
    match field_type {
        TypeRef::Named(name) => {
            if names_text_type(name.as_str()) {
                Ok(
                    RuleDescriptor {
                        field_name: String::from_str(field_name),
                        kind: RuleKind::Email,
                        parameter: None,
                    },
                )
            } else {
                Err(BuildError::IncompatibleFieldType { field: index })
            }
        },
        TypeRef::Complex => Err(BuildError::IncompatibleFieldType { field: index }),
    }
}

/// The rule that one specifier of a field stands for, if it stands for one.
pub fn parse_specifier(index: usize, field_name: &str, field_type: &TypeRef, specifier: &Specifier) -> (built:
    Result<Option<RuleDescriptor>, BuildError>)
    ensures
        match built {
            Ok(Some(rule)) => specifier_rule(index, field_name@, *field_type, *specifier) == Ok::<
                Option<RuleView>,
                BuildError,
            >(Some(rule@)) && rule.wf() && rule.field_name@ == field_name@,
            Ok(None) => specifier_rule(index, field_name@, *field_type, *specifier) == Ok::<
                Option<RuleView>,
                BuildError,
            >(None),
            Err(error) => specifier_rule(index, field_name@, *field_type, *specifier) == Err::<
                Option<RuleView>,
                BuildError,
            >(error),
        },
{
    match specifier {
        Specifier::Word(keyword) => {
            if text_eq(keyword.as_str(), "email") {
                match parse_email_rule(index, field_name, field_type) {
                    Ok(rule) => Ok(Some(rule)),
                    Err(error) => Err(error),
                }
            } else {
                Ok(None)
            }
        },
        Specifier::Group(_) => Ok(None),
        Specifier::Assignment(keyword, literal) => match keyword_comparison(keyword.as_str()) {
            None => Ok(None),
            Some(comparison) => match parse_comparison_rule(
                index,
                field_name,
                field_type,
                comparison,
                literal,
            ) {
                Ok(rule) => Ok(Some(rule)),
                Err(error) => Err(error),
            },
        },
    }
}

/// Adds to `rules` the rules that the specifiers of one attribute stand for.
fn parse_specifiers(
    index: usize,
    field_name: &str,
    field_type: &TypeRef,
    specifiers: &Vec<Specifier>,
    rules: &mut Vec<RuleDescriptor>,
) -> (outcome: Result<(), BuildError>)
    requires
        forall|i: int|
            0 <= i < old(rules)@.len() ==> (#[trigger] old(rules)@[i]).wf()
                && old(rules)@[i].field_name@ == field_name@,
    ensures
        match outcome {
            Ok(()) => specifier_rules(index, field_name@, *field_type, specifiers@) matches Ok(more)
                && rule_views(final(rules)@) == rule_views(old(rules)@) + more,
            Err(error) => specifier_rules(index, field_name@, *field_type, specifiers@) == Err::<
                Seq<RuleView>,
                BuildError,
            >(error),
        },
        forall|i: int|
            0 <= i < final(rules)@.len() ==> (#[trigger] final(rules)@[i]).wf()
                && final(rules)@[i].field_name@ == field_name@,
{
    let ghost before = rule_views(rules@);
    let mut m: usize = 0;
    assert(specifiers@.take(0) =~= Seq::<Specifier>::empty());
    assert(before + Seq::<RuleView>::empty() =~= before);
    while m < specifiers.len()
        invariant
            m <= specifiers.len(),
            specifier_rules(index, field_name@, *field_type, specifiers@.take(m as int)) matches Ok(more)
                && rule_views(rules@) == before + more,
            forall|i: int|
                0 <= i < rules@.len() ==> (#[trigger] rules@[i]).wf() && rules@[i].field_name@
                    == field_name@,
        decreases specifiers.len() - m,
    {
        let ghost sofar = specifier_rules(
            index,
            field_name@,
            *field_type,
            specifiers@.take(m as int),
        )->Ok_0;
        proof {
            assert(specifiers@.take(m as int + 1).drop_last() =~= specifiers@.take(m as int));
            assert(specifiers@.take(m as int + 1).last() == specifiers@[m as int]);
        }
        match parse_specifier(index, field_name, field_type, &specifiers[m]) {
            Err(error) => {
                proof {
                    lemma_specifier_failure_stands(
                        index,
                        field_name@,
                        *field_type,
                        specifiers@,
                        m as int + 1,
                    );
                }
                return Err(error);
            },
            Ok(Some(rule)) => {
                let ghost earlier = rules@;
                rules.push(rule);
                assert(rule_views(rules@) =~= rule_views(earlier).push(rule@));
                assert(rule_views(rules@) =~= before + sofar.push(rule@));
            },
            Ok(None) => {},
        }
        m += 1;
    }
    assert(specifiers@.take(m as int) =~= specifiers@);
    Ok(())
}

/// The rule set of the field declared at `index`.
pub fn parse_field(index: usize, field: &FieldDecl) -> (built: Result<FieldRuleSet, BuildError>)
    ensures
        match built {
            Ok(set) => field_set(index, *field) == Ok::<FieldRuleSetView, BuildError>(set@) && set.wf(),
            Err(error) => field_set(index, *field) == Err::<FieldRuleSetView, BuildError>(error),
        },
{
    let name = match &field.name {
        None => {
            return Err(BuildError::UnnamedField { field: index });
        },
        Some(name) => name,
    };
    let mut rules: Vec<RuleDescriptor> = Vec::new();
    let mut k: usize = 0;
    assert(field.attributes@.take(0) =~= Seq::<Attribute>::empty());
    assert(rule_views(rules@) =~= Seq::<RuleView>::empty());
    while k < field.attributes.len()
        invariant
            k <= field.attributes.len(),
            field.name == Some(*name),
            field_rules(index, name@, field.ty, field.attributes@.take(k as int)) == Ok::<
                Seq<RuleView>,
                BuildError,
            >(rule_views(rules@)),
            forall|i: int|
                0 <= i < rules@.len() ==> (#[trigger] rules@[i]).wf() && rules@[i].field_name@ == name@,
        decreases field.attributes.len() - k,
    {
        let attribute = &field.attributes[k];
        proof {
            assert(field.attributes@.take(k as int + 1).drop_last() =~= field.attributes@.take(
                k as int,
            ));
            assert(field.attributes@.take(k as int + 1).last() == field.attributes@[k as int]);
        }
        if names_validation_attribute(attribute.name.as_str()) {
            let outcome = match &attribute.body {
                AttributeBody::Malformed => Err(BuildError::MalformedSpecifier { field: index }),
                AttributeBody::Specifiers(specifiers) => parse_specifiers(
                    index,
                    name.as_str(),
                    &field.ty,
                    specifiers,
                    &mut rules,
                ),
            };
            match outcome {
                Err(error) => {
                    proof {
                        assert(attribute_rules(index, name@, field.ty, *attribute) == Err::<
                            Seq<RuleView>,
                            BuildError,
                        >(error));
                        assert(field_rules(
                            index,
                            name@,
                            field.ty,
                            field.attributes@.take(k as int + 1),
                        ) == Err::<Seq<RuleView>, BuildError>(error));
                        lemma_attribute_failure_stands(
                            index,
                            name@,
                            field.ty,
                            field.attributes@,
                            k as int + 1,
                        );
                    }
                    return Err(error);
                },
                Ok(()) => {},
            }
        } else {
            assert(rule_views(rules@) + Seq::<RuleView>::empty() =~= rule_views(rules@));
        }
        k += 1;
    }
    assert(field.attributes@.take(k as int) =~= field.attributes@);
    Ok(FieldRuleSet { field: name.clone(), rules })
}

/// Derives the rule table of a type from its declaration: one rule set for
/// each field of a plain record, with every rule that its validation
/// attributes stand for, in declaration order.
pub fn validate_derive(target: &Target) -> (built: Result<RuleTable, BuildError>)
    ensures
        match built {
            Ok(table) => rule_table(*target) == Ok::<Seq<FieldRuleSetView>, BuildError>(table@)
                && table.wf(),
            Err(error) => rule_table(*target) == Err::<Seq<FieldRuleSetView>, BuildError>(error),
        },
{
    let fields = match target {
        Target::Record(fields) => fields,
        _ => {
            return Err(BuildError::NotARecord);
        },
    };
    let mut sets: Vec<FieldRuleSet> = Vec::new();
    let mut i: usize = 0;
    assert(set_views(sets@) =~= Seq::<FieldRuleSetView>::empty());
    while i < fields.len()
        invariant
            i <= fields.len(),
            *target == Target::Record(*fields),
            field_sets(fields@, i as nat) == Ok::<Seq<FieldRuleSetView>, BuildError>(set_views(sets@)),
            forall|n: int| 0 <= n < sets@.len() ==> (#[trigger] sets@[n]).wf(),
        decreases fields.len() - i,
    {
        match parse_field(i, &fields[i]) {
            Err(error) => {
                proof {
                    assert(field_sets(fields@, (i + 1) as nat) == Err::<
                        Seq<FieldRuleSetView>,
                        BuildError,
                    >(error));
                    lemma_field_failure_stands(fields@, (i + 1) as nat, fields@.len());
                }
                return Err(error);
            },
            Ok(set) => {
                let ghost earlier = sets@;
                sets.push(set);
                assert(set_views(sets@) =~= set_views(earlier).push(set@));
            },
        }
        i += 1;
    }
    Ok(RuleTable { sets })
}

} // verus!
