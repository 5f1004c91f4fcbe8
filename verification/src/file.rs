use salvo::http::Mime;
use std::path::PathBuf;
use vstd::prelude::*;

verus! {

/// `std::path::PathBuf`, carried through as it is.
#[verifier::external_type_specification]
#[verifier::external_body]
pub struct ExPathBuf(std::path::PathBuf);

/// The media type of `mime`, as `salvo::http` hands it on, carried through as it is.
#[verifier::external_type_specification]
#[verifier::external_body]
pub struct ExMime(salvo::http::Mime);

/// An upload that the transport has staged on disk. The staged content
/// belongs to whoever staged it; the name and the content type are what the
/// client claimed.
#[derive(Debug)]
pub struct UploadedFile {
    pub path: PathBuf,
    pub file_name: Option<String>,
    pub content_type: Option<Mime>,
}

} // verus!
