use vstd::prelude::*;
use vstd::string::StringExecFns;

use crate::errors::ValidationErrors;
use crate::file::UploadedFile;
use crate::record::field_views;
use crate::record::Field;
use crate::record::FieldValue;
use crate::record::FieldView;
use crate::record::Record;
use crate::record::ValueView;
use crate::validator::Validate;

verus! {

/// What an extraction hands to its caller: the value, the violations found
/// on it, or the reason why the request could not be read. The three never
/// stand for one another.
#[derive(Debug)]
pub enum ExtractionOutcome<T> {
    /// The request was read and the value is whole.
    Value(T),
    /// The request was read, and the value breaks rules.
    ValidationFailure(ValidationErrors),
    /// The request could not be read: it is malformed, or lacks a required part.
    TransportFailure(String),
}

impl<T> ExtractionOutcome<T> {
    /// The outcome of the strategy that leaves the decoding to a general
    /// decoder: the decoded value, or the decoder's failure as a transport failure.
    pub fn from_decode(decoded: Result<T, String>) -> (outcome: ExtractionOutcome<T>)
        ensures
            outcome == match decoded {
                Ok(value) => ExtractionOutcome::<T>::Value(value),
                Err(description) => ExtractionOutcome::<T>::TransportFailure(description),
            },
    {
        match decoded {
            Ok(value) => ExtractionOutcome::Value(value),
            Err(description) => ExtractionOutcome::TransportFailure(description),
        }
    }
}

impl<T> ExtractionOutcome<T> {
    /// The outcome for a value that was extracted and then validated: the
    /// value where the validation found nothing, and its violations otherwise.
    pub fn from_verdict(value: T, checked: Result<(), ValidationErrors>) -> (outcome: ExtractionOutcome<T>)
        ensures
            outcome == match checked {
                Ok(()) => ExtractionOutcome::<T>::Value(value),
                Err(errors) => ExtractionOutcome::<T>::ValidationFailure(errors),
            },
    {
        match checked {
            Ok(()) => ExtractionOutcome::Value(value),
            Err(errors) => ExtractionOutcome::ValidationFailure(errors),
        }
    }
}

impl<T: Validate> ExtractionOutcome<T> {
    /// Extraction followed by validation. An extracted value is validated,
    /// and stays or gives way to its violations; an outcome that holds no
    /// value stays what it is, so that a transport failure never turns into
    /// a validation failure.
    pub fn validated(self) -> (outcome: ExtractionOutcome<T>)
        ensures
            match self {
                ExtractionOutcome::Value(_) => outcome == self
                    || outcome is ValidationFailure,
                _ => outcome == self,
            },
    {
        match self {
            ExtractionOutcome::Value(value) => {
                let checked = value.validate();
                ExtractionOutcome::from_verdict(value, checked)
            },
            ExtractionOutcome::ValidationFailure(errors) => ExtractionOutcome::ValidationFailure(
                errors,
            ),
            ExtractionOutcome::TransportFailure(description) => ExtractionOutcome::TransportFailure(
                description,
            ),
        }
    }
}

/// How a required part travels in a multipart body.
#[derive(Clone, Copy, Debug, PartialEq, Eq, Structural)]
pub enum WireKind {
    /// As a text field.
    Text,
    /// As an uploaded file.
    File,
}

/// One part that a type requires of a multipart body.
#[derive(Debug)]
pub struct Requirement {
    pub name: String,
    pub kind: WireKind,
}

/// A required part, with its name as text.
pub struct RequirementView {
    pub name: Seq<char>,
    pub kind: WireKind,
}

impl View for Requirement {
    type V = RequirementView;

    open spec fn view(&self) -> RequirementView {
        RequirementView { name: self.name@, kind: self.kind }
    }
}

/// The required parts of a list, with their names as text.
pub open spec fn requirement_views(plan: Seq<Requirement>) -> Seq<RequirementView> {
    plan.map_values(|requirement: Requirement| requirement@)
}

/// What one lookup in the request produced.
#[derive(Debug)]
pub enum Lookup {
    /// The text field of that name.
    Text(String),
    /// The uploaded file of that name.
    File(UploadedFile),
    /// The body holds no such part.
    Absent,
    /// The body could not be decoded; the decoder's words.
    Malformed(String),
}

/// What the caller is to do next for a pull.
#[derive(Debug)]
pub enum PullAction {
    /// Look up the text field of this name and supply what comes back.
    FetchText(String),
    /// Look up the uploaded file of this name and supply what comes back.
    FetchFile(String),
    /// Nothing is left to look up: finish.
    Finish,
}

/// How far a pull has come: the parts gathered so far, in the order of the
/// plan, and the reason of its failure once it has failed.
pub struct PullState {
    pub gathered: Seq<FieldView>,
    pub failure: Option<Seq<char>>,
}

/// Where a pull ends, seen from outside.
pub enum PullOutcome {
    /// Every required part was found.
    Complete(Seq<FieldView>),
    /// A part is lacking or the body is malformed.
    Failed(Seq<char>),
}

/// The state in which every pull starts.
pub open spec fn initial() -> PullState {
    PullState { gathered: Seq::empty(), failure: None }
}

/// Whether what a lookup produced is a part of the kind that was asked for.
pub open spec fn accepts(kind: WireKind, found: Lookup) -> bool {
    match kind {
        WireKind::Text => found is Text,
        WireKind::File => found is File,
    }
}

/// The value that a lookup found.
pub open spec fn found_value(found: Lookup) -> ValueView {
    match found {
        Lookup::Text(text) => ValueView::Text(text@),
        Lookup::File(file) => ValueView::File(file),
        _ => ValueView::Text(Seq::empty()),
    }
}

/// The words that report a required part as lacking.
pub open spec fn missing(requirement: RequirementView) -> Seq<char> {
    match requirement.kind {
        WireKind::Text => "Missing field: "@ + requirement.name,
        WireKind::File => "Missing file: "@ + requirement.name,
    }
}

/// The reason with which a pull fails on a lookup that it cannot accept.
pub open spec fn failure_of(requirement: RequirementView, found: Lookup) -> Seq<char> {
    match found {
        Lookup::Malformed(description) => description@,
        _ => missing(requirement),
    }
}

/// The part that a pull waits for, unless it has failed or has them all.
pub open spec fn awaited(plan: Seq<RequirementView>, state: PullState) -> Option<RequirementView> {
    if state.failure is None && state.gathered.len() < plan.len() {
        Some(plan[state.gathered.len() as int])
    } else {
        None
    }
}

/// The state after one lookup was supplied: the part joins those gathered
/// where it is what the pull waits for; the pull fails where it is not; and
/// a pull that waits for nothing stays as it is.
pub open spec fn step(plan: Seq<RequirementView>, state: PullState, found: Lookup) -> PullState {
    match awaited(plan, state) {
        None => state,
        Some(requirement) => if accepts(requirement.kind, found) {
            PullState {
                gathered: state.gathered.push(
                    FieldView { name: requirement.name, value: found_value(found) },
                ),
                failure: None,
            }
        } else {
            PullState { gathered: state.gathered, failure: Some(failure_of(requirement, found)) }
        },
    }
}

/// The state after the lookups of a list were supplied one after the other.
pub open spec fn run(plan: Seq<RequirementView>, lookups: Seq<Lookup>) -> PullState
    decreases lookups.len(),
{
    if lookups.len() == 0 {
        initial()
    } else {
        step(plan, run(plan, lookups.drop_last()), lookups.last())
    }
}

/// Where a pull that is finished in `state` ends: with the gathered parts
/// only if none is lacking, and else with the reason.
pub open spec fn outcome_of(plan: Seq<RequirementView>, state: PullState) -> PullOutcome {
    match state.failure {
        Some(reason) => PullOutcome::Failed(reason),
        None => match awaited(plan, state) {
            Some(requirement) => PullOutcome::Failed(missing(requirement)),
            None => PullOutcome::Complete(state.gathered),
        },
    }
}

/// Whether a value is of the kind in which a part travels.
pub open spec fn of_kind(value: ValueView, kind: WireKind) -> bool {
    match kind {
        WireKind::Text => value is Text,
        WireKind::File => value is File,
    }
}

/// The parts gathered are the first parts of the plan, each under its name
/// and of its kind.
pub open spec fn follows(gathered: Seq<FieldView>, plan: Seq<RequirementView>) -> bool {
    &&& gathered.len() <= plan.len()
    &&& forall|i: int|
        0 <= i < gathered.len() ==> (#[trigger] gathered[i]).name == plan[i].name && of_kind(
            gathered[i].value,
            plan[i].kind,
        )
}

/// The record holds every part of the plan, each under its name and of its
/// kind, and nothing else.
pub open spec fn conforms(record: Seq<FieldView>, plan: Seq<RequirementView>) -> bool {
    record.len() == plan.len() && follows(record, plan)
}

/// The pull of the parts that a type requires from a multipart body, one
/// lookup at a time. The pull decides what to look up and what each answer
/// means; the caller does the lookups.
pub struct MultipartPull {
    plan: Vec<Requirement>,
    gathered: Vec<Field>,
    failure: Option<String>,
}

impl MultipartPull {
    #[verifier::type_invariant]
    spec fn inv(&self) -> bool {
        follows(self.state().gathered, self.requirements())
    }

    /// The parts that this pull is to gather, in order.
    pub closed spec fn requirements(&self) -> Seq<RequirementView> {
        requirement_views(self.plan@)
    }

    /// How far this pull has come.
    pub closed spec fn state(&self) -> PullState {
        PullState {
            gathered: field_views(self.gathered@),
            failure: match self.failure {
                Some(reason) => Some(reason@),
                None => None,
            },
        }
    }

    /// The parts gathered so far, as the record that they make up.
    pub closed spec fn record(&self) -> Record {
        Record { fields: self.gathered }
    }

    /// The record of a pull shows the parts that its state holds.
    pub proof fn lemma_record_shows_state(&self)
        ensures
            self.record()@ == self.state().gathered,
    {
    }

    /// A pull of the parts of `plan`, none gathered yet.
    pub fn new(plan: Vec<Requirement>) -> (pull: MultipartPull)
        ensures
            pull.requirements() == requirement_views(plan@),
            pull.state() == initial(),
    {
        let pull = MultipartPull { plan, gathered: Vec::new(), failure: None };
        assert(pull.state().gathered =~= Seq::<FieldView>::empty());
        pull
    }

    /// What the caller is to do next: look up the part that the pull waits
    /// for, or finish.
    pub fn action(&self) -> (next: PullAction)
        ensures
            match next {
                PullAction::FetchText(name) => awaited(self.requirements(), self.state())
                    == Some(RequirementView { name: name@, kind: WireKind::Text }),
                PullAction::FetchFile(name) => awaited(self.requirements(), self.state())
                    == Some(RequirementView { name: name@, kind: WireKind::File }),
                PullAction::Finish => awaited(self.requirements(), self.state()) is None,
            },
    {
        proof {
            use_type_invariant(self);
        }
        if self.failure.is_some() || self.gathered.len() >= self.plan.len() {
            PullAction::Finish
        } else {
            let requirement = &self.plan[self.gathered.len()];
            match requirement.kind {
                WireKind::Text => PullAction::FetchText(requirement.name.clone()),
                WireKind::File => PullAction::FetchFile(requirement.name.clone()),
            }
        }
    }

    /// Takes what the lookup that `action` asked for has produced.
    pub fn supply(self, found: Lookup) -> (next: MultipartPull)
        ensures
            next.requirements() == self.requirements(),
            next.state() == step(self.requirements(), self.state(), found),
            follows(next.state().gathered, next.requirements()),
    {
        proof {
            use_type_invariant(&self);
        }
        if self.failure.is_some() || self.gathered.len() >= self.plan.len() {
            return self;
        }
        let ghost before = self.state();
        let MultipartPull { plan, gathered, failure } = self;
        let mut gathered = gathered;
        let requirement = &plan[gathered.len()];
        match found {
            Lookup::Text(text) => match requirement.kind {
                WireKind::Text => {
                    let ghost earlier = gathered@;
                    gathered.push(Field { name: requirement.name.clone(), value: FieldValue::Text(text) });
                    assert(field_views(gathered@) =~= field_views(earlier).push(
                        FieldView { name: requirement@.name, value: ValueView::Text(text@) },
                    ));
                    MultipartPull { plan, gathered, failure: None }
                },
                WireKind::File => {
                    let reason = missing_part(requirement);
                    MultipartPull { plan, gathered, failure: Some(reason) }
                },
            },
            Lookup::File(file) => match requirement.kind {
                WireKind::File => {
                    let ghost earlier = gathered@;
                    gathered.push(Field { name: requirement.name.clone(), value: FieldValue::File(file) });
                    assert(field_views(gathered@) =~= field_views(earlier).push(
                        FieldView { name: requirement@.name, value: ValueView::File(file) },
                    ));
                    MultipartPull { plan, gathered, failure: None }
                },
                WireKind::Text => {
                    let reason = missing_part(requirement);
                    MultipartPull { plan, gathered, failure: Some(reason) }
                },
            },
            Lookup::Absent => {
                let reason = missing_part(requirement);
                MultipartPull { plan, gathered, failure: Some(reason) }
            },
            Lookup::Malformed(description) => MultipartPull {
                plan,
                gathered,
                failure: Some(description),
            },
        }
    }

    /// Ends the pull: the record of the gathered parts only if every
    /// required part was found, and a transport failure with the reason
    /// otherwise. A record is never handed out in part.
    pub fn finish(self) -> (outcome: ExtractionOutcome<Record>)
        ensures
            match outcome {
                ExtractionOutcome::Value(record) => outcome_of(self.requirements(), self.state())
                    == PullOutcome::Complete(record@) && conforms(record@, self.requirements())
                    && record == self.record(),
                ExtractionOutcome::TransportFailure(reason) => outcome_of(
                    self.requirements(),
                    self.state(),
                ) == PullOutcome::Failed(reason@),
                ExtractionOutcome::ValidationFailure(_) => false,
            },
    {
        proof {
            use_type_invariant(&self);
        }
        let MultipartPull { plan, gathered, failure } = self;
        match failure {
            Some(reason) => ExtractionOutcome::TransportFailure(reason),
            None => {
                if gathered.len() < plan.len() {
                    ExtractionOutcome::TransportFailure(missing_part(&plan[gathered.len()]))
                } else {
                    ExtractionOutcome::Value(Record { fields: gathered })
                }
            },
        }
    }
}

/// The words that report `requirement` as lacking.
pub fn missing_part(requirement: &Requirement) -> (reason: String)
    ensures
        reason@ == missing(requirement@),
{
    match requirement.kind {
        WireKind::Text => String::from_str("Missing field: ").concat(requirement.name.as_str()),
        WireKind::File => String::from_str("Missing file: ").concat(requirement.name.as_str()),
    }
}

/// A type that can be extracted from a multipart body by pulling its parts
/// one at a time; a type has this only where it says so itself.
pub trait FromMultipart: Sized {
    /// The parts that the type requires, in declaration order.
    spec fn required() -> Seq<RequirementView>;

    /// The value that the parts of `record` make up, if they make one up.
    spec fn assembled(record: Record) -> Option<Self>;

    /// The parts that the type requires, in declaration order.
    fn plan() -> (plan: Vec<Requirement>)
        ensures
            requirement_views(plan@) == Self::required(),
    ;

    /// Builds the value from its parts: all of them, or no value.
    fn assemble(record: Record) -> (value: Option<Self>)
        ensures
            value == Self::assembled(record),
            value is Some ==> conforms(record@, Self::required()),
    ;
}

/// The words that report a record that is not made of the parts of its type.
pub open spec fn mismatch() -> Seq<char> {
    "The parts do not make up the value."@
}

/// Starts the pull of the parts that `T` requires.
pub fn begin<T: FromMultipart>() -> (pull: MultipartPull)
    ensures
        pull.requirements() == T::required(),
        pull.state() == initial(),
{
    MultipartPull::new(T::plan())
}

/// The outcome of putting a value together from its parts: the value, or a
/// transport failure where the parts did not make one up.
pub fn assembled<T>(value: Option<T>) -> (outcome: ExtractionOutcome<T>)
    ensures
        match value {
            Some(whole) => outcome == ExtractionOutcome::<T>::Value(whole),
            None => outcome matches ExtractionOutcome::TransportFailure(words) && words@
                == mismatch(),
        },
{
    match value {
        Some(whole) => ExtractionOutcome::Value(whole),
        None => ExtractionOutcome::TransportFailure(
            String::from_str("The parts do not make up the value."),
        ),
    }
}

/// Ends a pull with the value of type `T` that its parts make up. A pull
/// that failed ends in its failure; a pull that found every part ends with
/// the value that `T` makes of the record, and in a transport failure where
/// `T` makes none of it.
pub fn deliver<T: FromMultipart>(pull: MultipartPull) -> (outcome: ExtractionOutcome<T>)
    ensures
        match outcome_of(pull.requirements(), pull.state()) {
            PullOutcome::Failed(reason) => outcome matches ExtractionOutcome::TransportFailure(words)
                && words@ == reason,
            PullOutcome::Complete(parts) => pull.record()@ == parts && match T::assembled(
                pull.record(),
            ) {
                Some(value) => outcome == ExtractionOutcome::<T>::Value(value),
                None => outcome matches ExtractionOutcome::TransportFailure(words) && words@
                    == mismatch(),
            },
        },
        outcome is Value ==> conforms(pull.record()@, T::required()),
{
    match pull.finish() {
        ExtractionOutcome::Value(record) => assembled(T::assemble(record)),
        ExtractionOutcome::TransportFailure(reason) => ExtractionOutcome::TransportFailure(reason),
        ExtractionOutcome::ValidationFailure(errors) => ExtractionOutcome::ValidationFailure(errors),
    }
}

/// The parts that the first `count` lookups hand in, each under the name
/// of the part that it was made for.
pub open spec fn handed_in(plan: Seq<RequirementView>, lookups: Seq<Lookup>, count: nat) -> Seq<
    FieldView,
> {
    Seq::new(count, |i: int| FieldView { name: plan[i].name, value: found_value(lookups[i]) })
}

/// As long as every lookup produces the part that was asked for, the pull
/// gathers them in order and does not fail.
pub proof fn lemma_run_gathers(plan: Seq<RequirementView>, lookups: Seq<Lookup>)
    requires
        lookups.len() <= plan.len(),
        forall|i: int| 0 <= i < lookups.len() ==> accepts(plan[i].kind, #[trigger] lookups[i]),
    ensures
        run(plan, lookups) == (PullState {
            gathered: handed_in(plan, lookups, lookups.len()),
            failure: None,
        }),
    decreases lookups.len(),
{
    if lookups.len() == 0 {
        assert(handed_in(plan, lookups, 0) =~= Seq::<FieldView>::empty());
    } else {
        let earlier = lookups.drop_last();
        lemma_run_gathers(plan, earlier);
        assert(handed_in(plan, lookups, lookups.len()) =~= handed_in(plan, earlier, earlier.len()).push(
            FieldView {
                name: plan[earlier.len() as int].name,
                value: found_value(lookups.last()),
            },
        ));
    }
}

/// The first lookup that does not produce the part that was asked for
/// decides the pull: it ends in that failure, whatever is supplied afterwards,
/// and never with a record.
pub proof fn lemma_first_failure_decides(plan: Seq<RequirementView>, lookups: Seq<Lookup>, at: int)
    requires
        0 <= at < plan.len(),
        at < lookups.len(),
        forall|i: int| 0 <= i < at ==> accepts(plan[i].kind, #[trigger] lookups[i]),
        !accepts(plan[at].kind, lookups[at]),
    ensures
        run(plan, lookups).failure == Some(failure_of(plan[at], lookups[at])),
        outcome_of(plan, run(plan, lookups)) == PullOutcome::Failed(
            failure_of(plan[at], lookups[at]),
        ),
    decreases lookups.len(),
{
    let earlier = lookups.drop_last();
    if lookups.len() == at + 1 {
        assert forall|i: int| 0 <= i < earlier.len() implies accepts(
            plan[i].kind,
            #[trigger] earlier[i],
        ) by {
            assert(earlier[i] == lookups[i]);
        }
        lemma_run_gathers(plan, earlier);
    } else {
        assert forall|i: int| 0 <= i < at implies accepts(plan[i].kind, #[trigger] earlier[i]) by {
            assert(earlier[i] == lookups[i]);
        }
        assert(earlier[at] == lookups[at]);
        lemma_first_failure_decides(plan, earlier, at);
    }
}

/// Where every required part is found, the pull ends with the record of
/// them all, in the order of the plan.
pub proof fn lemma_all_found_completes(plan: Seq<RequirementView>, lookups: Seq<Lookup>)
    requires
        lookups.len() >= plan.len(),
        forall|i: int| 0 <= i < plan.len() ==> accepts(plan[i].kind, #[trigger] lookups[i]),
    ensures
        outcome_of(plan, run(plan, lookups)) == PullOutcome::Complete(
            handed_in(plan, lookups, plan.len()),
        ),
        conforms(handed_in(plan, lookups, plan.len()), plan),
    decreases lookups.len(),
{
    if lookups.len() == plan.len() {
        lemma_run_gathers(plan, lookups);
    } else {
        let earlier = lookups.drop_last();
        assert forall|i: int| 0 <= i < plan.len() implies accepts(
            plan[i].kind,
            #[trigger] earlier[i],
        ) by {
            assert(earlier[i] == lookups[i]);
        }
        lemma_all_found_completes(plan, earlier);
        assert(handed_in(plan, lookups, plan.len()) =~= handed_in(plan, earlier, plan.len()));
    }
}

/// Whatever is supplied, the parts gathered are the first parts of the plan.
pub proof fn lemma_run_follows(plan: Seq<RequirementView>, lookups: Seq<Lookup>)
    ensures
        follows(run(plan, lookups).gathered, plan),
    decreases lookups.len(),
{
    if lookups.len() > 0 {
        lemma_run_follows(plan, lookups.drop_last());
    }
}

/// A pull ends with a record only if the record holds every required part:
/// no record is ever handed out in part.
pub proof fn lemma_record_is_whole(plan: Seq<RequirementView>, lookups: Seq<Lookup>)
    ensures
        outcome_of(plan, run(plan, lookups)) matches PullOutcome::Complete(record) ==> conforms(
            record,
            plan,
        ),
{
    lemma_run_follows(plan, lookups);
}

} // verus!
