use vstd::prelude::*;
use vstd::string::StringExecFns;

use crate::errors::ErrorView;
use crate::errors::ValidationError;
use crate::number::decimal;
use crate::number::Number;
use crate::record::FieldValue;
use crate::record::ValueView;
use crate::text::byte_length;
use crate::text::contains_char;

verus! {

/// The constraints that a rule can put on a field.
#[derive(Clone, Copy, Debug, PartialEq, Eq, Structural)]
pub enum RuleKind {
    /// The text holds an `@`.
    Email,
    /// The text is at least as long as the bound.
    MinLength,
    /// The text is at most as long as the bound.
    MaxLength,
    /// The number is at least the bound.
    MinValue,
    /// The number is at most the bound.
    MaxValue,
    /// Flags a length or a number that is the bound.
    Equals,
}

/// One constraint on one field.
#[derive(Debug)]
pub struct RuleDescriptor {
    pub field_name: String,
    pub kind: RuleKind,
    pub parameter: Option<Number>,
}

/// A rule as its meaning depends on it: the field's name as text, the bound as an integer.
pub struct RuleView {
    pub field: Seq<char>,
    pub kind: RuleKind,
    pub parameter: Option<int>,
}

impl View for RuleDescriptor {
    type V = RuleView;

    open spec fn view(&self) -> RuleView {
        RuleView {
            field: self.field_name@,
            kind: self.kind,
            parameter: match self.parameter {
                Some(bound) => Some(bound.value()),
                None => None,
            },
        }
    }
}

impl RuleDescriptor {
    /// Every kind but `Email` has its bound, and `Email` has none.
    pub open spec fn wf(&self) -> bool {
        (self.kind is Email) == (self.parameter is None)
    }
}

/// The rules of a list as their meaning depends on them.
pub open spec fn rule_views(rules: Seq<RuleDescriptor>) -> Seq<RuleView> {
    rules.map_values(|rule: RuleDescriptor| rule@)
}

/// The rules attached to one field, in declaration order.
#[derive(Debug)]
pub struct FieldRuleSet {
    pub field: String,
    pub rules: Vec<RuleDescriptor>,
}

/// A field's rules as their meaning depends on them.
pub struct FieldRuleSetView {
    pub field: Seq<char>,
    pub rules: Seq<RuleView>,
}

impl View for FieldRuleSet {
    type V = FieldRuleSetView;

    open spec fn view(&self) -> FieldRuleSetView {
        FieldRuleSetView { field: self.field@, rules: rule_views(self.rules@) }
    }
}

impl FieldRuleSet {
    /// Each rule is well-formed and speaks of this set's field.
    pub open spec fn wf(&self) -> bool {
        forall|i: int|
            0 <= i < self.rules@.len() ==> (#[trigger] self.rules@[i]).wf()
                && self.rules@[i].field_name@ == self.field@
    }
}

/// The rule sets of a type, one for each declared field, in declaration order.
#[derive(Debug)]
pub struct RuleTable {
    pub sets: Vec<FieldRuleSet>,
}

impl View for RuleTable {
    type V = Seq<FieldRuleSetView>;

    open spec fn view(&self) -> Seq<FieldRuleSetView> {
        set_views(self.sets@)
    }
}

/// The rule sets of a list as their meaning depends on them.
pub open spec fn set_views(sets: Seq<FieldRuleSet>) -> Seq<FieldRuleSetView> {
    sets.map_values(|set: FieldRuleSet| set@)
}

impl RuleTable {
    /// Each set is well-formed.
    pub open spec fn wf(&self) -> bool {
        forall|i: int| 0 <= i < self.sets@.len() ==> (#[trigger] self.sets@[i]).wf()
    }
}

/// Every rule of the table in the order in which it is evaluated: set by
/// set, and inside a set in declaration order.
pub open spec fn all_rules(sets: Seq<FieldRuleSetView>) -> Seq<RuleView>
    decreases sets.len(),
{
    if sets.len() == 0 {
        Seq::empty()
    } else {
        all_rules(sets.drop_last()) + sets.last().rules
    }
}

/// Whether `rule` finds fault with a field that holds `value`; a field that
/// the value lacks, or one of a shape that the rule is not about, is never
/// at fault.
pub open spec fn flags(rule: RuleView, value: Option<ValueView>) -> bool {
    match rule.kind {
        RuleKind::Email => value matches Some(ValueView::Text(text)) && !text.contains('@'),
        RuleKind::MinLength => {
            &&& value matches Some(ValueView::Text(text))
            &&& rule.parameter matches Some(bound)
            &&& byte_length(text) < bound
        },
        RuleKind::MaxLength => {
            &&& value matches Some(ValueView::Text(text))
            &&& rule.parameter matches Some(bound)
            &&& byte_length(text) > bound
        },
        RuleKind::MinValue => {
            &&& value matches Some(ValueView::Number(number))
            &&& rule.parameter matches Some(bound)
            &&& number < bound
        },
        RuleKind::MaxValue => {
            &&& value matches Some(ValueView::Number(number))
            &&& rule.parameter matches Some(bound)
            &&& number > bound
        },
        RuleKind::Equals => {
            &&& rule.parameter matches Some(bound)
            &&& match value {
                Some(ValueView::Text(text)) => byte_length(text) == bound,
                Some(ValueView::Number(number)) => number == bound,
                _ => false,
            }
        },
    }
}

/// What a comparison measures of a value: the length of a text, the value of a number.
pub open spec fn measure(value: ValueView) -> int {
    match value {
        ValueView::Text(text) => byte_length(text) as int,
        ValueView::Number(number) => number,
        ValueView::File(_) => 0,
    }
}

/// A lower bound finds fault with exactly what lies below it, and an upper
/// bound with exactly what lies above it: a text by its length, a number by
/// its value.
pub proof fn lemma_bounds_flag_by_comparison(field: Seq<char>, bound: int, text: Seq<char>, number: int)
    ensures
        flags(
            RuleView { field, kind: RuleKind::MinLength, parameter: Some(bound) },
            Some(ValueView::Text(text)),
        ) <==> byte_length(text) < bound,
        flags(
            RuleView { field, kind: RuleKind::MaxLength, parameter: Some(bound) },
            Some(ValueView::Text(text)),
        ) <==> byte_length(text) > bound,
        flags(
            RuleView { field, kind: RuleKind::MinValue, parameter: Some(bound) },
            Some(ValueView::Number(number)),
        ) <==> number < bound,
        flags(
            RuleView { field, kind: RuleKind::MaxValue, parameter: Some(bound) },
            Some(ValueView::Number(number)),
        ) <==> number > bound,
{
}

/// The email rule finds fault with exactly the texts that hold no `@`.
pub proof fn lemma_email_flags_without_at_sign(field: Seq<char>, text: Seq<char>)
    ensures
        flags(RuleView { field, kind: RuleKind::Email, parameter: None }, Some(ValueView::Text(text)))
            <==> !text.contains('@'),
{
}

/// The code under which a violation of a rule of this kind is reported.
pub open spec fn code_of(kind: RuleKind) -> Seq<char> {
    match kind {
        RuleKind::Email => "email"@,
        RuleKind::MinLength => "min"@,
        RuleKind::MaxLength => "max"@,
        RuleKind::MinValue => "min"@,
        RuleKind::MaxValue => "max"@,
        RuleKind::Equals => "equals"@,
    }
}

/// The message with which a violation of a rule of this kind is reported;
/// it names the bound in decimal.
pub open spec fn message_of(kind: RuleKind, bound: int) -> Seq<char> {
    match kind {
        RuleKind::Email => "Must be a valid email address."@,
        RuleKind::MinLength => "Length must be at least "@ + decimal(bound) + "."@,
        RuleKind::MaxLength => "Length must be no more than "@ + decimal(bound) + "."@,
        RuleKind::MinValue => "Value must be at least "@ + decimal(bound) + "."@,
        RuleKind::MaxValue => "Value must be no more than "@ + decimal(bound) + "."@,
        RuleKind::Equals => "Length must be exactly "@ + decimal(bound) + "."@,
    }
}

/// The bound that a rule's message names; zero where the rule has none.
pub open spec fn bound_of(rule: RuleView) -> int {
    match rule.parameter {
        Some(bound) => bound,
        None => 0,
    }
}

/// The error that reports a violation of `rule`.
pub open spec fn error_of(rule: RuleView) -> ErrorView {
    ErrorView { code: code_of(rule.kind), message: message_of(rule.kind, bound_of(rule)) }
}

/// A field's value as the rules see it, where the value has that field.
pub open spec fn seen(value: Option<&FieldValue>) -> Option<ValueView> {
    match value {
        Some(held) => Some(held@),
        None => None,
    }
}

impl RuleDescriptor {
    /// Whether this rule finds fault with a field that holds `value`.
    pub fn is_violated_by(&self, value: Option<&FieldValue>) -> (violated: bool)
        ensures
            violated == flags(self@, seen(value)),
    {
        match self.kind {
            RuleKind::Email => match value {
                Some(FieldValue::Text(text)) => !contains_char(text.as_str(), '@'),
                _ => false,
            },
            RuleKind::MinLength => match (value, &self.parameter) {
                (Some(FieldValue::Text(text)), Some(bound)) => {
                    Number::from_length(text.as_str().as_bytes().len()).less_than(bound)
                },
                _ => false,
            },
            RuleKind::MaxLength => match (value, &self.parameter) {
                (Some(FieldValue::Text(text)), Some(bound)) => {
                    bound.less_than(&Number::from_length(text.as_str().as_bytes().len()))
                },
                _ => false,
            },
            RuleKind::MinValue => match (value, &self.parameter) {
                (Some(FieldValue::Number(number)), Some(bound)) => number.less_than(bound),
                _ => false,
            },
            RuleKind::MaxValue => match (value, &self.parameter) {
                (Some(FieldValue::Number(number)), Some(bound)) => bound.less_than(number),
                _ => false,
            },
            RuleKind::Equals => match (value, &self.parameter) {
                (Some(FieldValue::Text(text)), Some(bound)) => {
                    Number::from_length(text.as_str().as_bytes().len()).same_value(bound)
                },
                (Some(FieldValue::Number(number)), Some(bound)) => number.same_value(bound),
                _ => false,
            },
        }
    }

    /// The error that reports a violation of this rule.
    pub fn violation(&self) -> (error: ValidationError)
        ensures
            error@ == error_of(self@),
    {
        let bound = match self.parameter {
            Some(bound) => bound,
            None => Number::Unsigned(0),
        };
        let code = match self.kind {
            RuleKind::Email => "email",
            RuleKind::MinLength => "min",
            RuleKind::MaxLength => "max",
            RuleKind::MinValue => "min",
            RuleKind::MaxValue => "max",
            RuleKind::Equals => "equals",
        };
        let message = match self.kind {
            RuleKind::Email => String::from_str("Must be a valid email address."),
            RuleKind::MinLength => around_bound("Length must be at least ", &bound),
            RuleKind::MaxLength => around_bound("Length must be no more than ", &bound),
            RuleKind::MinValue => around_bound("Value must be at least ", &bound),
            RuleKind::MaxValue => around_bound("Value must be no more than ", &bound),
            RuleKind::Equals => around_bound("Length must be exactly ", &bound),
        };
        ValidationError { code: String::from_str(code), message }
    }
}

fn around_bound(lead: &str, bound: &Number) -> (message: String)
    ensures
        message@ == lead@ + decimal(bound.value()) + "."@,
{
    String::from_str(lead).concat(bound.to_decimal().as_str()).concat(".")
}

} // verus!
