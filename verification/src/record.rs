use vstd::prelude::*;

use crate::file::UploadedFile;
use crate::number::Number;
use crate::text::text_eq;

verus! {

/// What one field of a value holds.
#[derive(Debug)]
pub enum FieldValue {
    Text(String),
    Number(Number),
    File(UploadedFile),
}

/// A field's value as the rules see it: a text, an integer, or an upload.
pub enum ValueView {
    Text(Seq<char>),
    Number(int),
    File(UploadedFile),
}

impl View for FieldValue {
    type V = ValueView;

    open spec fn view(&self) -> ValueView {
        match *self {
            FieldValue::Text(text) => ValueView::Text(text@),
            FieldValue::Number(number) => ValueView::Number(number.value()),
            FieldValue::File(file) => ValueView::File(file),
        }
    }
}

/// One named field of a value.
#[derive(Debug)]
pub struct Field {
    pub name: String,
    pub value: FieldValue,
}

/// A named field as the rules see it.
pub struct FieldView {
    pub name: Seq<char>,
    pub value: ValueView,
}

impl View for Field {
    type V = FieldView;

    open spec fn view(&self) -> FieldView {
        FieldView { name: self.name@, value: self.value@ }
    }
}

/// A value as a flat collection of named fields, in declaration order.
#[derive(Debug)]
pub struct Record {
    pub fields: Vec<Field>,
}

impl View for Record {
    type V = Seq<FieldView>;

    open spec fn view(&self) -> Seq<FieldView> {
        field_views(self.fields@)
    }
}

/// The fields of a list as the rules see them.
pub open spec fn field_views(fields: Seq<Field>) -> Seq<FieldView> {
    fields.map_values(|field: Field| field@)
}

/// The value of the first field called `name`, if the record has one.
pub open spec fn value_of(record: Seq<FieldView>, name: Seq<char>) -> Option<ValueView>
    decreases record.len(),
{
    if record.len() == 0 {
        None
    } else if record[0].name == name {
        Some(record[0].value)
    } else {
        value_of(record.drop_first(), name)
    }
}

/// Where the first field called `name` stands at `at`, its value is the one found.
pub proof fn lemma_value_of_found(record: Seq<FieldView>, name: Seq<char>, at: int)
    requires
        0 <= at < record.len(),
        record[at].name == name,
        forall|j: int| 0 <= j < at ==> (#[trigger] record[j]).name != name,
    ensures
        value_of(record, name) == Some(record[at].value),
    decreases at,
{
    if at > 0 {
        let rest = record.drop_first();
        assert forall|j: int| 0 <= j < at - 1 implies (#[trigger] rest[j]).name != name by {
            assert(rest[j] == record[j + 1]);
        }
        lemma_value_of_found(rest, name, at - 1);
    }
}

/// A name that no field carries has no value.
pub proof fn lemma_value_of_absent(record: Seq<FieldView>, name: Seq<char>)
    requires
        forall|j: int| 0 <= j < record.len() ==> (#[trigger] record[j]).name != name,
    ensures
        value_of(record, name) is None,
    decreases record.len(),
{
    if record.len() > 0 {
        let rest = record.drop_first();
        assert forall|j: int| 0 <= j < rest.len() implies (#[trigger] rest[j]).name != name by {
            assert(rest[j] == record[j + 1]);
        }
        lemma_value_of_absent(rest, name);
    }
}

impl Record {
    /// A record without fields.
    pub fn new() -> (record: Record)
        ensures
            record.fields@ == Seq::<Field>::empty(),
            record@ == Seq::<FieldView>::empty(),
    {
        let record = Record { fields: Vec::new() };
        assert(record@ =~= Seq::<FieldView>::empty());
        record
    }

    /// Adds a field after those already there.
    pub fn push(&mut self, name: String, value: FieldValue)
        ensures
            final(self).fields@ == old(self).fields@.push(Field { name, value }),
            final(self)@ == old(self)@.push(FieldView { name: name@, value: value@ }),
    {
        self.fields.push(Field { name, value });
        assert(self@ =~= old(self)@.push(FieldView { name: name@, value: value@ }));
    }

    /// The value of the first field called `name`.
    pub fn get(&self, name: &str) -> (value: Option<&FieldValue>)
        ensures
            match value {
                Some(found) => value_of(self@, name@) == Some(found@),
                None => value_of(self@, name@) is None,
            },
    {
        let mut i: usize = 0;
        while i < self.fields.len() && !text_eq(self.fields[i].name.as_str(), name)
            invariant
                i <= self.fields.len(),
                forall|j: int| 0 <= j < i ==> (#[trigger] self@[j]).name != name@,
            decreases self.fields.len() - i,
        {
            i += 1;
        }
        if i < self.fields.len() {
            proof {
                lemma_value_of_found(self@, name@, i as int);
            }
            Some(&self.fields[i].value)
        } else {
            proof {
                lemma_value_of_absent(self@, name@);
            }
            None
        }
    }
}

} // verus!
