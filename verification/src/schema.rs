use vstd::prelude::*;
use vstd::string::StringExecFns;

use crate::extract::requirement_views;
use crate::extract::FromMultipart;
use crate::extract::Requirement;
use crate::extract::RequirementView;
use crate::extract::WireKind;
use crate::file::UploadedFile;
use crate::wrapper::MultipartValidated;

verus! {

/// The basic types in which a documentation generator describes a field on the wire.
#[derive(Clone, Copy, Debug, PartialEq, Eq, Structural)]
pub enum WireType {
    String,
    Integer,
    Number,
    Boolean,
    Array,
    Object,
}

/// How the content of a field is encoded on the wire.
#[derive(Clone, Copy, Debug, PartialEq, Eq, Structural)]
pub enum Encoding {
    /// As it is.
    Plain,
    /// As binary content.
    Binary,
}

/// The wire shape of one kind of value.
#[derive(Debug)]
pub struct SchemaShape {
    pub wire_type: WireType,
    pub encoding: Encoding,
    pub description: Option<String>,
}

/// A wire shape with its description as text.
pub struct SchemaShapeView {
    pub wire_type: WireType,
    pub encoding: Encoding,
    pub description: Option<Seq<char>>,
}

impl View for SchemaShape {
    type V = SchemaShapeView;

    open spec fn view(&self) -> SchemaShapeView {
        SchemaShapeView {
            wire_type: self.wire_type,
            encoding: self.encoding,
            description: match self.description {
                Some(words) => Some(words@),
                None => None,
            },
        }
    }
}

/// The wire shape of one declared field.
#[derive(Debug)]
pub struct FieldDescriptor {
    pub name: String,
    pub shape: SchemaShape,
}

/// A field's descriptor with its texts as text.
pub struct FieldDescriptorView {
    pub name: Seq<char>,
    pub shape: SchemaShapeView,
}

impl View for FieldDescriptor {
    type V = FieldDescriptorView;

    open spec fn view(&self) -> FieldDescriptorView {
        FieldDescriptorView { name: self.name@, shape: self.shape@ }
    }
}

/// The descriptors of a list with their texts as text.
pub open spec fn descriptor_views(fields: Seq<FieldDescriptor>) -> Seq<FieldDescriptorView> {
    fields.map_values(|field: FieldDescriptor| field@)
}

/// The wire shape of an uploaded file: a string that holds binary content.
pub open spec fn file_shape() -> SchemaShapeView {
    SchemaShapeView {
        wire_type: WireType::String,
        encoding: Encoding::Binary,
        description: Some("The file to upload."@),
    }
}

/// The wire shape of a text field: a string as it is.
pub open spec fn text_shape() -> SchemaShapeView {
    SchemaShapeView { wire_type: WireType::String, encoding: Encoding::Plain, description: None }
}

/// The descriptor of one required part.
pub open spec fn descriptor_of(requirement: RequirementView) -> FieldDescriptorView {
    FieldDescriptorView {
        name: requirement.name,
        shape: match requirement.kind {
            WireKind::Text => text_shape(),
            WireKind::File => file_shape(),
        },
    }
}

/// The descriptors of the parts of a plan: one for each, in the order of the plan.
pub open spec fn description_of(plan: Seq<RequirementView>) -> Seq<FieldDescriptorView> {
    plan.map_values(|requirement: RequirementView| descriptor_of(requirement))
}

impl UploadedFile {
    /// The wire shape of an uploaded file, whatever the file.
    pub fn to_schema() -> (shape: SchemaShape)
        ensures
            shape@ == file_shape(),
    {
        SchemaShape {
            wire_type: WireType::String,
            encoding: Encoding::Binary,
            description: Some(String::from_str("The file to upload.")),
        }
    }
}

/// The descriptor of one required part.
pub fn describe_part(requirement: &Requirement) -> (descriptor: FieldDescriptor)
    ensures
        descriptor@ == descriptor_of(requirement@),
{
    let shape = match requirement.kind {
        WireKind::Text => SchemaShape {
            wire_type: WireType::String,
            encoding: Encoding::Plain,
            description: None,
        },
        WireKind::File => UploadedFile::to_schema(),
    };
    FieldDescriptor { name: requirement.name.clone(), shape }
}

/// Describes the wire shape of the parts of a plan: one descriptor for each,
/// in the order of the plan.
pub fn describe(plan: &Vec<Requirement>) -> (fields: Vec<FieldDescriptor>)
    ensures
        descriptor_views(fields@) == description_of(requirement_views(plan@)),
        fields@.len() == plan@.len(),
{
    let mut fields: Vec<FieldDescriptor> = Vec::new();
    let mut i: usize = 0;
    while i < plan.len()
        invariant
            i <= plan.len(),
            fields@.len() == i,
            forall|j: int| 0 <= j < i ==> (#[trigger] fields@[j])@ == descriptor_of(plan@[j]@),
        decreases plan.len() - i,
    {
        fields.push(describe_part(&plan[i]));
        i += 1;
    }
    assert(descriptor_views(fields@) =~= description_of(requirement_views(plan@)));
    fields
}

/// What a request body holds, for a documentation generator.
#[derive(Debug)]
pub struct RequestBody {
    pub description: String,
    pub content_type: String,
    pub fields: Vec<FieldDescriptor>,
}

/// The words that describe a request body of form data.
pub open spec fn body_description() -> Seq<char> {
    "Extract form format data from request."@
}

/// The content type of a multipart body.
pub open spec fn multipart_content_type() -> Seq<char> {
    "multipart/form-data"@
}

/// The description of a multipart request body that holds `fields`.
pub fn multipart_body(fields: Vec<FieldDescriptor>) -> (body: RequestBody)
    ensures
        body.description@ == body_description(),
        body.content_type@ == multipart_content_type(),
        body.fields == fields,
{
    RequestBody {
        description: String::from_str("Extract form format data from request."),
        content_type: String::from_str("multipart/form-data"),
        fields,
    }
}

impl<T: FromMultipart> MultipartValidated<T> {
    /// Describes the request body from which a `T` is extracted: multipart
    /// form data with one field for each part that `T` requires.
    pub fn to_request_body() -> (body: RequestBody)
        ensures
            body.description@ == body_description(),
            body.content_type@ == multipart_content_type(),
            descriptor_views(body.fields@) == description_of(T::required()),
            body.fields@.len() == T::required().len(),
    {
        multipart_body(describe(&T::plan()))
    }
}

} // verus!
