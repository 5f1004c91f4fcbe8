use salvo::http::StatusCode;
use vstd::prelude::*;
use vstd::string::StringExecFns;

use crate::status::internal_server_error;
use crate::status::status_number;
use crate::text::text_eq;
use crate::text::texts;

verus! {

/// The number of the transport status of a reply for which none was chosen.
pub const DEFAULT_STATUS: u16 = 500;

/// One reported violation: a short machine-readable code and a message for people.
#[derive(Debug)]
pub struct ValidationError {
    pub code: String,
    pub message: String,
}

/// What a `ValidationError` says, as text.
pub struct ErrorView {
    pub code: Seq<char>,
    pub message: Seq<char>,
}

impl View for ValidationError {
    type V = ErrorView;

    open spec fn view(&self) -> ErrorView {
        ErrorView { code: self.code@, message: self.message@ }
    }
}

/// The violations reported under one field, oldest first.
pub struct FieldErrorsView {
    pub field: Seq<char>,
    pub errors: Seq<ErrorView>,
}

/// Every entry holds at least one error, and no field has two entries.
pub open spec fn well_formed(entries: Seq<FieldErrorsView>) -> bool {
    &&& forall|i: int| 0 <= i < entries.len() ==> (#[trigger] entries[i]).errors.len() > 0
    &&& forall|i: int, j: int|
        0 <= i < entries.len() && 0 <= j < entries.len() && i != j ==> (#[trigger] entries[i]).field
            != (#[trigger] entries[j]).field
}

/// The entries after one more error is reported under `field`: it joins the
/// field's entry where there is one, and opens a new last entry otherwise.
pub open spec fn with_error(entries: Seq<FieldErrorsView>, field: Seq<char>, error: ErrorView) -> Seq<
    FieldErrorsView,
>
    decreases entries.len(),
{
    if entries.len() == 0 {
        seq![FieldErrorsView { field, errors: seq![error] }]
    } else if entries[0].field == field {
        entries.update(0, FieldErrorsView { field, errors: entries[0].errors.push(error) })
    } else {
        seq![entries[0]] + with_error(entries.drop_first(), field, error)
    }
}

/// The errors reported under `field`, oldest first; none where the field has no entry.
pub open spec fn errors_of(entries: Seq<FieldErrorsView>, field: Seq<char>) -> Seq<ErrorView>
    decreases entries.len(),
{
    if entries.len() == 0 {
        Seq::empty()
    } else if entries[0].field == field {
        entries[0].errors
    } else {
        errors_of(entries.drop_first(), field)
    }
}

/// The fields that have an entry, in the order in which they got one.
pub open spec fn fields_of(entries: Seq<FieldErrorsView>) -> Seq<Seq<char>> {
    entries.map_values(|entry: FieldErrorsView| entry.field)
}

#[derive(Debug)]
struct FieldErrors {
    field: String,
    errors: Vec<ValidationError>,
}

impl View for FieldErrors {
    type V = FieldErrorsView;

    closed spec fn view(&self) -> FieldErrorsView {
        FieldErrorsView { field: self.field@, errors: error_views(self.errors@) }
    }
}

/// What a list of errors says, error by error.
pub open spec fn error_views(errors: Seq<ValidationError>) -> Seq<ErrorView> {
    errors.map_values(|error: ValidationError| error@)
}

spec fn entry_views(entries: Seq<FieldErrors>) -> Seq<FieldErrorsView> {
    entries.map_values(|entry: FieldErrors| entry@)
}

/// The violations found on one value, field by field, with the transport
/// status that the reply should carry where one was chosen.
#[derive(Debug)]
pub struct ValidationErrors {
    status_code: Option<StatusCode>,
    errors: Vec<FieldErrors>,
}

impl View for ValidationErrors {
    type V = Seq<FieldErrorsView>;

    closed spec fn view(&self) -> Seq<FieldErrorsView> {
        entry_views(self.errors@)
    }
}

impl ValidationErrors {
    #[verifier::type_invariant]
    spec fn inv(&self) -> bool {
        well_formed(self@)
    }

    /// The transport status chosen for the reply, if one was.
    pub closed spec fn status_override(&self) -> Option<StatusCode> {
        self.status_code
    }

    /// No field, no error, no status chosen.
    pub fn new() -> (errors: ValidationErrors)
        ensures
            errors@ == Seq::<FieldErrorsView>::empty(),
            errors.status_override() is None,
            errors.is_empty(),
            well_formed(errors@),
    {
        let errors = ValidationErrors { errors: Vec::new(), status_code: None };
        assert(errors@ =~= Seq::<FieldErrorsView>::empty());
        errors
    }

    /// No field has an entry.
    pub open spec fn spec_is_empty(&self) -> bool {
        self@.len() == 0
    }

    /// Whether no field has an error.
    #[verifier::when_used_as_spec(spec_is_empty)]
    pub fn is_empty(&self) -> (empty: bool)
        ensures
            empty == (self@.len() == 0),
            empty == (forall|field: Seq<char>| errors_of(self@, field).len() == 0),
            well_formed(self@),
    {
        proof {
            use_type_invariant(self);
            if self@.len() > 0 {
                assert(errors_of(self@, self@[0].field) == self@[0].errors);
            }
        }
        self.errors.len() == 0
    }

    /// Chooses the transport status of the reply; a later choice replaces an earlier one.
    pub fn add_status_code(&mut self, status_code: StatusCode)
        ensures
            final(self).status_override() == Some(status_code),
            final(self)@ == old(self)@,
    {
        proof {
            use_type_invariant(&*self);
        }
        self.status_code = Some(status_code);
    }

    /// Chooses the transport status of the reply where none was chosen
    /// yet, and leaves an earlier choice as it is.
    pub fn add_status_code_if_unset(&mut self, status_code: StatusCode)
        ensures
            final(self).status_override() == match old(self).status_override() {
                Some(chosen) => Some(chosen),
                None => Some(status_code),
            },
            final(self)@ == old(self)@,
    {
        proof {
            use_type_invariant(&*self);
        }
        if self.status_code.is_none() {
            self.status_code = Some(status_code);
        }
    }

    /// The transport status chosen for the reply, if one was.
    pub fn status_code(&self) -> (chosen: Option<StatusCode>)
        ensures
            chosen == self.status_override(),
    {
        self.status_code
    }

    /// The transport status that the reply carries: the one chosen, and the
    /// server-error status 500 where none was.
    pub fn transport_status(&self) -> (status: StatusCode)
        ensures
            match self.status_override() {
                Some(chosen) => status == chosen,
                None => status_number(status) == DEFAULT_STATUS,
            },
    {
        match self.status_code {
            Some(chosen) => chosen,
            None => internal_server_error(),
        }
    }

    /// The number of the transport status that the reply carries.
    pub fn transport_status_number(&self) -> (number: u16)
        ensures
            number == match self.status_override() {
                Some(chosen) => status_number(chosen),
                None => DEFAULT_STATUS,
            },
    {
        self.transport_status().as_u16()
    }

    /// How many fields have errors.
    pub fn len(&self) -> (count: usize)
        ensures
            count == self@.len(),
    {
        self.errors.len()
    }

    /// The fields that have errors, in the order in which each got its first.
    pub fn fields(&self) -> (names: Vec<String>)
        ensures
            texts(names@) == fields_of(self@),
            well_formed(self@),
    {
        proof {
            use_type_invariant(self);
        }
        let mut names: Vec<String> = Vec::new();
        let mut i: usize = 0;
        while i < self.errors.len()
            invariant
                i <= self.errors.len(),
                texts(names@) == fields_of(self@).take(i as int),
            decreases self.errors.len() - i,
        {
            let ghost earlier = names@;
            names.push(self.errors[i].field.clone());
            assert(texts(names@) =~= texts(earlier).push(self@[i as int].field));
            assert(fields_of(self@).take(i as int + 1) =~= fields_of(self@).take(i as int).push(
                self@[i as int].field,
            ));
            i += 1;
        }
        assert(fields_of(self@).take(i as int) =~= fields_of(self@));
        names
    }

    /// The errors reported under `field`, oldest first, where there are any.
    pub fn get(&self, field: &str) -> (found: Option<&Vec<ValidationError>>)
        ensures
            match found {
                Some(list) => list@.len() > 0 && error_views(list@) == errors_of(self@, field@),
                None => errors_of(self@, field@).len() == 0 && !fields_of(self@).contains(field@),
            },
            well_formed(self@),
    {
        proof {
            use_type_invariant(self);
        }
        let mut i: usize = 0;
        while i < self.errors.len() && !text_eq(self.errors[i].field.as_str(), field)
            invariant
                i <= self.errors.len(),
                forall|j: int| 0 <= j < i ==> (#[trigger] self@[j]).field != field@,
            decreases self.errors.len() - i,
        {
            i += 1;
        }
        if i < self.errors.len() {
            proof {
                lemma_errors_of_found(self@, field@, i as int);
            }
            Some(&self.errors[i].errors)
        } else {
            proof {
                lemma_errors_of_absent(self@, field@);
            }
            None
        }
    }

    /// Reports one more error under `field_name`: appended to the field's
    /// errors where it has some, and as the first error of a new entry otherwise.
    pub fn add(&mut self, field_name: &str, error_type: &str, error_message: &str)
        ensures
            final(self)@ == with_error(
                old(self)@,
                field_name@,
                ErrorView { code: error_type@, message: error_message@ },
            ),
            final(self).status_override() == old(self).status_override(),
            !final(self).is_empty(),
            well_formed(final(self)@),
    {
        let error = ValidationError {
            code: String::from_str(error_type),
            message: String::from_str(error_message),
        };
        self.add_error(field_name, error);
    }

    /// Reports `error` under `field_name`, as `add` does with a code and a message.
    pub fn add_error(&mut self, field_name: &str, error: ValidationError)
        ensures
            final(self)@ == with_error(old(self)@, field_name@, error@),
            final(self).status_override() == old(self).status_override(),
            !final(self).is_empty(),
            well_formed(final(self)@),
    {
        proof {
            use_type_invariant(&*self);
        }
        let ghost before = self@;
        let ghost reported = error@;
        let mut entries: Vec<FieldErrors> = Vec::new();
        assert(entry_views(entries@) =~= Seq::<FieldErrorsView>::empty());
        std::mem::swap(&mut self.errors, &mut entries);
        let mut i: usize = 0;
        while i < entries.len() && !text_eq(entries[i].field.as_str(), field_name)
            invariant
                i <= entries.len(),
                entry_views(entries@) == before,
                forall|j: int| 0 <= j < i ==> (#[trigger] before[j]).field != field_name@,
            decreases entries.len() - i,
        {
            i += 1;
        }
        if i < entries.len() {
            let ghost earlier = entries@;
            entries[i].errors.push(error);
            proof {
                lemma_with_error_found(before, field_name@, reported, i as int);
                assert(earlier[i as int]@ == before[i as int]);
                assert(error_views(entries@[i as int].errors@) =~= error_views(
                    earlier[i as int].errors@,
                ).push(reported));
                assert(entry_views(entries@) =~= with_error(before, field_name@, reported));
            }
        } else {
            let mut list: Vec<ValidationError> = Vec::new();
            list.push(error);
            assert(error_views(list@) =~= seq![reported]);
            entries.push(FieldErrors { field: String::from_str(field_name), errors: list });
            proof {
                lemma_with_error_absent(before, field_name@, reported);
                assert(entry_views(entries@) =~= with_error(before, field_name@, reported));
            }
        }
        proof {
            lemma_with_error_well_formed(before, field_name@, reported);
        }
        std::mem::swap(&mut self.errors, &mut entries);
    }
}

/// Where `field` has its first entry at `at`, its errors are those of that entry.
pub proof fn lemma_errors_of_found(entries: Seq<FieldErrorsView>, field: Seq<char>, at: int)
    requires
        0 <= at < entries.len(),
        entries[at].field == field,
        forall|j: int| 0 <= j < at ==> (#[trigger] entries[j]).field != field,
    ensures
        errors_of(entries, field) == entries[at].errors,
    decreases at,
{
    if at > 0 {
        let rest = entries.drop_first();
        assert forall|j: int| 0 <= j < at - 1 implies (#[trigger] rest[j]).field != field by {
            assert(rest[j] == entries[j + 1]);
        }
        lemma_errors_of_found(rest, field, at - 1);
    }
}

/// A field without an entry has no errors.
pub proof fn lemma_errors_of_absent(entries: Seq<FieldErrorsView>, field: Seq<char>)
    requires
        forall|j: int| 0 <= j < entries.len() ==> (#[trigger] entries[j]).field != field,
    ensures
        errors_of(entries, field).len() == 0,
        !fields_of(entries).contains(field),
    decreases entries.len(),
{
    if entries.len() > 0 {
        let rest = entries.drop_first();
        assert forall|j: int| 0 <= j < rest.len() implies (#[trigger] rest[j]).field != field by {
            assert(rest[j] == entries[j + 1]);
        }
        lemma_errors_of_absent(rest, field);
    }
}

/// Where `field` has its entry at `at`, the new error joins that entry.
pub proof fn lemma_with_error_found(
    entries: Seq<FieldErrorsView>,
    field: Seq<char>,
    error: ErrorView,
    at: int,
)
    requires
        0 <= at < entries.len(),
        entries[at].field == field,
        forall|j: int| 0 <= j < at ==> (#[trigger] entries[j]).field != field,
    ensures
        with_error(entries, field, error) == entries.update(
            at,
            FieldErrorsView { field, errors: entries[at].errors.push(error) },
        ),
    decreases at,
{
    if at > 0 {
        let rest = entries.drop_first();
        assert forall|j: int| 0 <= j < at - 1 implies (#[trigger] rest[j]).field != field by {
            assert(rest[j] == entries[j + 1]);
        }
        lemma_with_error_found(rest, field, error, at - 1);
        assert(with_error(entries, field, error) =~= entries.update(
            at,
            FieldErrorsView { field, errors: entries[at].errors.push(error) },
        ));
    }
}

/// Where `field` has no entry, the new error opens one at the end.
pub proof fn lemma_with_error_absent(entries: Seq<FieldErrorsView>, field: Seq<char>, error: ErrorView)
    requires
        forall|j: int| 0 <= j < entries.len() ==> (#[trigger] entries[j]).field != field,
    ensures
        with_error(entries, field, error) == entries.push(
            FieldErrorsView { field, errors: seq![error] },
        ),
    decreases entries.len(),
{
    if entries.len() > 0 {
        let rest = entries.drop_first();
        assert forall|j: int| 0 <= j < rest.len() implies (#[trigger] rest[j]).field != field by {
            assert(rest[j] == entries[j + 1]);
        }
        lemma_with_error_absent(rest, field, error);
        assert(with_error(entries, field, error) =~= entries.push(
            FieldErrorsView { field, errors: seq![error] },
        ));
    } else {
        assert(with_error(entries, field, error) =~= entries.push(
            FieldErrorsView { field, errors: seq![error] },
        ));
    }
}

/// Reporting an error keeps the entries well-formed.
pub proof fn lemma_with_error_well_formed(
    entries: Seq<FieldErrorsView>,
    field: Seq<char>,
    error: ErrorView,
)
    requires
        well_formed(entries),
    ensures
        well_formed(with_error(entries, field, error)),
{
    if exists|i: int| 0 <= i < entries.len() && (#[trigger] entries[i]).field == field {
        let at = choose|i: int| 0 <= i < entries.len() && (#[trigger] entries[i]).field == field;
        lemma_with_error_found(entries, field, error, at);
    } else {
        lemma_with_error_absent(entries, field, error);
    }
}

/// After a report under `field`, that field has one more error, the newest
/// last, and every other field has the errors it had.
pub proof fn lemma_errors_of_with_error(
    entries: Seq<FieldErrorsView>,
    field: Seq<char>,
    error: ErrorView,
    other: Seq<char>,
)
    ensures
        errors_of(with_error(entries, field, error), other) == if other == field {
            errors_of(entries, field).push(error)
        } else {
            errors_of(entries, other)
        },
    decreases entries.len(),
{
    let after = with_error(entries, field, error);
    if entries.len() == 0 {
        assert(after.drop_first() =~= Seq::<FieldErrorsView>::empty());
        assert(errors_of(after.drop_first(), other) =~= Seq::<ErrorView>::empty());
        assert(errors_of(entries, field).push(error) =~= seq![error]);
    } else if entries[0].field == field {
        assert(after.drop_first() =~= entries.drop_first());
    } else {
        lemma_errors_of_with_error(entries.drop_first(), field, error, other);
        assert(after.drop_first() =~= with_error(entries.drop_first(), field, error));
        assert(after[0] == entries[0]);
    }
}

/// A report under a field that has an entry keeps the fields as they are;
/// one under a new field puts it last.
pub proof fn lemma_fields_of_with_error(entries: Seq<FieldErrorsView>, field: Seq<char>, error: ErrorView)
    ensures
        fields_of(with_error(entries, field, error)) == if fields_of(entries).contains(field) {
            fields_of(entries)
        } else {
            fields_of(entries).push(field)
        },
        with_error(entries, field, error).len() > 0,
    decreases entries.len(),
{
    if entries.len() == 0 {
        assert(fields_of(with_error(entries, field, error)) =~= fields_of(entries).push(field));
    } else if entries[0].field == field {
        assert(fields_of(entries)[0] == field);
        assert(fields_of(with_error(entries, field, error)) =~= fields_of(entries));
    } else {
        let rest = entries.drop_first();
        lemma_fields_of_with_error(rest, field, error);
        assert(fields_of(entries) =~= seq![entries[0].field] + fields_of(rest));
        assert(fields_of(with_error(entries, field, error)) =~= seq![entries[0].field] + fields_of(
            with_error(rest, field, error),
        ));
        if fields_of(rest).contains(field) {
            let at = choose|i: int| 0 <= i < fields_of(rest).len() && fields_of(rest)[i] == field;
            assert(fields_of(entries)[at + 1] == field);
        } else {
            if fields_of(entries).contains(field) {
                let at = choose|i: int|
                    0 <= i < fields_of(entries).len() && fields_of(entries)[i] == field;
                assert(fields_of(rest)[at - 1] == field);
            }
            assert(seq![entries[0].field] + fields_of(rest).push(field) =~= fields_of(entries).push(
                field,
            ));
        }
    }
}

} // verus!
