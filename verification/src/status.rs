use salvo::http::StatusCode;
use vstd::prelude::*;

verus! {

/// The HTTP status code type of `http`, as `salvo::http` hands it on. Its
/// value is carried through as it is; nothing is known of its inside.
#[verifier::external_type_specification]
#[verifier::external_body]
pub struct ExStatusCode(salvo::http::StatusCode);

/// The three-digit number that `StatusCode::as_u16` returns for `code`.
pub uninterp spec fn status_number(code: StatusCode) -> u16;

/// `StatusCode::as_u16`: the number of the status code, the same for the
/// same code every time.
pub assume_specification[ StatusCode::as_u16 ](code: &StatusCode) -> (number: u16)
    ensures
        number == status_number(*code),
;

/// `StatusCode::INTERNAL_SERVER_ERROR`: the constant that `http` defines
/// with the number 500.
#[verifier::external_body]
pub(crate) fn internal_server_error() -> (code: StatusCode)
    ensures
        status_number(code) == 500,
{
    StatusCode::INTERNAL_SERVER_ERROR
}

} // verus!
