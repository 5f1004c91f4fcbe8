use vstd::prelude::*;

use crate::errors::errors_of;
use crate::errors::fields_of;
use crate::errors::lemma_fields_of_with_error;
use crate::errors::lemma_errors_of_with_error;
use crate::errors::lemma_with_error_well_formed;
use crate::errors::well_formed;
use crate::errors::with_error;
use crate::errors::ErrorView;
use crate::errors::FieldErrorsView;
use crate::errors::ValidationErrors;
use crate::record::value_of;
use crate::record::FieldView;
use crate::record::Record;
use crate::rules::all_rules;
use crate::rules::error_of;
use crate::rules::flags;
use crate::rules::FieldRuleSetView;
use crate::rules::RuleTable;
use crate::rules::RuleView;

verus! {

/// A type whose values can be held against the rules attached to it.
pub trait Validate {
    /// Holds the value against every rule of its type: `Ok` where none is
    /// broken, and otherwise every violation.
    fn validate(&self) -> Result<(), ValidationErrors>;
}

/// The result of a validation that has collected `errors`: `Ok` where there
/// are none, and the errors otherwise.
pub fn verdict(errors: ValidationErrors) -> (checked: Result<(), ValidationErrors>)
    ensures
        checked == if errors.is_empty() {
            Ok::<(), ValidationErrors>(())
        } else {
            Err::<(), ValidationErrors>(errors)
        },
{
    if errors.is_empty() {
        Ok(())
    } else {
        Err(errors)
    }
}

/// Whether `rule` finds fault with the field of `record` that it is about.
pub open spec fn fails(rule: RuleView, record: Seq<FieldView>) -> bool {
    flags(rule, value_of(record, rule.field))
}

/// What evaluating `rules` in order reports on `record`: every rule that
/// fails adds its error under its field, and no rule stops the others.
pub open spec fn report(rules: Seq<RuleView>, record: Seq<FieldView>) -> Seq<FieldErrorsView>
    decreases rules.len(),
{
    if rules.len() == 0 {
        Seq::empty()
    } else {
        let earlier = report(rules.drop_last(), record);
        let rule = rules.last();
        if fails(rule, record) {
            with_error(earlier, rule.field, error_of(rule))
        } else {
            earlier
        }
    }
}

/// Evaluates every rule of `table` on `record` in one pass, set by set and
/// rule by rule, and collects every violation.
pub fn validate(table: &RuleTable, record: &Record) -> (errors: ValidationErrors)
    ensures
        errors@ == report(all_rules(table@), record@),
        errors.status_override() is None,
        well_formed(errors@),
{
    let mut errors = ValidationErrors::new();
    let mut i: usize = 0;
    assert(table@.take(0) =~= Seq::<FieldRuleSetView>::empty());
    while i < table.sets.len()
        invariant
            i <= table.sets.len(),
            errors@ == report(all_rules(table@.take(i as int)), record@),
            errors.status_override() is None,
            well_formed(errors@),
        decreases table.sets.len() - i,
    {
        let set = &table.sets[i];
        let ghost done = all_rules(table@.take(i as int));
        let ghost rules = table@[i as int].rules;
        assert(set@.rules == rules);
        let mut j: usize = 0;
        assert(done + rules.take(0) =~= done);
        while j < set.rules.len()
            invariant
                j <= set.rules.len(),
                set@.rules == rules,
                errors@ == report(done + rules.take(j as int), record@),
                errors.status_override() is None,
                well_formed(errors@),
            decreases set.rules.len() - j,
        {
            let rule = &set.rules[j];
            proof {
                let next = done + rules.take(j as int + 1);
                assert(next.drop_last() =~= done + rules.take(j as int));
                assert(next.last() == rule@);
            }
            if rule.is_violated_by(record.get(rule.field_name.as_str())) {
                errors.add_error(rule.field_name.as_str(), rule.violation());
            }
            j += 1;
        }
        proof {
            assert(rules.take(j as int) =~= rules);
            assert(table@.take(i as int + 1).drop_last() =~= table@.take(i as int));
            assert(table@.take(i as int + 1).last() == table@[i as int]);
        }
        i += 1;
    }
    assert(table@.take(i as int) =~= table@);
    errors
}

/// A record together with the rules of its type.
#[derive(Debug)]
pub struct Subject {
    pub rules: RuleTable,
    pub record: Record,
}

impl Validate for Subject {
    /// `Ok` where no rule of the table finds fault with the record, and
    /// otherwise what the rules report on it.
    fn validate(&self) -> (checked: Result<(), ValidationErrors>)
        ensures
            match checked {
                Ok(()) => report(all_rules(self.rules@), self.record@).len() == 0,
                Err(errors) => errors@ == report(all_rules(self.rules@), self.record@)
                    && !errors.is_empty() && errors.status_override() is None,
            },
    {
        verdict(validate(&self.rules, &self.record))
    }
}

/// The rules that fail on `record` and speak of `field`.
pub open spec fn failing_on(record: Seq<FieldView>, field: Seq<char>) -> spec_fn(RuleView) -> bool {
    |rule: RuleView| rule.field == field && fails(rule, record)
}

/// The error with which each rule of a list reports its violation.
pub open spec fn errors_for(rules: Seq<RuleView>) -> Seq<ErrorView> {
    rules.map_values(|rule: RuleView| error_of(rule))
}

/// Under a field's key stand the errors of exactly those of its rules that
/// fail, one for each, in the order in which the rules were declared.
pub proof fn lemma_errors_follow_declaration_order(
    rules: Seq<RuleView>,
    record: Seq<FieldView>,
    field: Seq<char>,
)
    ensures
        errors_of(report(rules, record), field) == errors_for(
            rules.filter(failing_on(record, field)),
        ),
        errors_of(report(rules, record), field).len() == rules.filter(
            failing_on(record, field),
        ).len(),
    decreases rules.len(),
{
    reveal(Seq::filter);
    if rules.len() == 0 {
        assert(errors_of(report(rules, record), field) =~= errors_for(
            rules.filter(failing_on(record, field)),
        ));
    } else {
        let rule = rules.last();
        let earlier = report(rules.drop_last(), record);
        let kept = rules.drop_last().filter(failing_on(record, field));
        lemma_errors_follow_declaration_order(rules.drop_last(), record, field);
        if fails(rule, record) {
            lemma_errors_of_with_error(earlier, rule.field, error_of(rule), field);
        }
        if failing_on(record, field)(rule) {
            assert(errors_for(kept.push(rule)) =~= errors_for(kept).push(error_of(rule)));
        }
    }
}

/// The field of each rule that fails on `record`, in the order of the rules.
pub open spec fn failing_fields(rules: Seq<RuleView>, record: Seq<FieldView>) -> Seq<Seq<char>>
    decreases rules.len(),
{
    if rules.len() == 0 {
        Seq::empty()
    } else {
        let earlier = failing_fields(rules.drop_last(), record);
        if fails(rules.last(), record) {
            earlier.push(rules.last().field)
        } else {
            earlier
        }
    }
}

/// The names of a list without repetitions, each where it stands first.
pub open spec fn first_occurrences(names: Seq<Seq<char>>) -> Seq<Seq<char>>
    decreases names.len(),
{
    if names.len() == 0 {
        Seq::empty()
    } else {
        let earlier = first_occurrences(names.drop_last());
        if earlier.contains(names.last()) {
            earlier
        } else {
            earlier.push(names.last())
        }
    }
}

/// The fields of a report stand in the order in which each has its first
/// failing rule, which is the order of their declaration.
pub proof fn lemma_fields_follow_declaration_order(rules: Seq<RuleView>, record: Seq<FieldView>)
    ensures
        fields_of(report(rules, record)) == first_occurrences(failing_fields(rules, record)),
    decreases rules.len(),
{
    if rules.len() == 0 {
        assert(fields_of(report(rules, record)) =~= Seq::<Seq<char>>::empty());
    } else {
        let rule = rules.last();
        lemma_fields_follow_declaration_order(rules.drop_last(), record);
        if fails(rule, record) {
            let names = failing_fields(rules, record);
            assert(names.drop_last() =~= failing_fields(rules.drop_last(), record));
            lemma_fields_of_with_error(report(rules.drop_last(), record), rule.field, error_of(rule));
        }
    }
}

/// Whatever the rules and the value, the report is well-formed.
pub proof fn lemma_report_well_formed(rules: Seq<RuleView>, record: Seq<FieldView>)
    ensures
        well_formed(report(rules, record)),
    decreases rules.len(),
{
    if rules.len() > 0 {
        lemma_report_well_formed(rules.drop_last(), record);
        let rule = rules.last();
        lemma_with_error_well_formed(report(rules.drop_last(), record), rule.field, error_of(rule));
    }
}

/// A table none of whose sets holds a rule has no rule at all.
pub proof fn lemma_no_rules(sets: Seq<FieldRuleSetView>)
    requires
        forall|i: int| 0 <= i < sets.len() ==> (#[trigger] sets[i]).rules.len() == 0,
    ensures
        all_rules(sets).len() == 0,
    decreases sets.len(),
{
    if sets.len() > 0 {
        lemma_no_rules(sets.drop_last());
    }
}

/// A type without rules reports nothing, whatever the value.
pub proof fn lemma_no_rules_no_errors(sets: Seq<FieldRuleSetView>, record: Seq<FieldView>)
    requires
        forall|i: int| 0 <= i < sets.len() ==> (#[trigger] sets[i]).rules.len() == 0,
    ensures
        report(all_rules(sets), record).len() == 0,
{
    lemma_no_rules(sets);
}

} // verus!
