//! Declarative validation of record types and extraction of typed values
//! from request bodies.
//!
//! A record type declares rules on its fields; `grammar` turns the
//! declaration into a rule table, and `validator` holds a value against the
//! table and collects every violation, field by field, in `errors`.
//! `extract` turns a multipart body into a typed value, one lookup at a
//! time, and keeps what can go wrong apart: a request that cannot be read is
//! never reported as a value that breaks rules. `schema` describes the wire
//! shape of an extracted type for documentation.

pub mod errors;
pub mod extract;
pub mod file;
pub mod grammar;
pub mod inertia;
pub mod number;
pub mod profile;
pub mod record;
pub mod rules;
pub mod schema;
pub mod status;
pub mod text;
pub mod validator;
pub mod wrapper;

pub use errors::ValidationError;
pub use errors::ValidationErrors;
pub use extract::ExtractionOutcome;
pub use extract::FromMultipart;
pub use file::UploadedFile;
pub use inertia::Inertia;
pub use inertia::Page;
pub use profile::UserProfile;
pub use validator::Validate;
pub use wrapper::MultipartValidated;
