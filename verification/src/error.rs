//! Errors of the request intake.

use vstd::prelude::*;

verus! {

/// Errors surfaced by the request intake.
#[derive(Clone, Copy, PartialEq, Eq, Structural, Debug)]
pub enum RequestError {
    /// The request head or body framing is invalid.
    MalformedRequest,
    /// A path parameter could not be converted to the requested type.
    InvalidParameter,
}

impl RequestError {
    /// A short diagnostic description of the error.
    pub fn message(&self) -> (r: &'static str)
        ensures
            self is MalformedRequest ==> r@ == "malformed request"@,
            self is InvalidParameter ==> r@ == "invalid parameter"@,
    {
        match self {
            RequestError::MalformedRequest => "malformed request",
            RequestError::InvalidParameter => "invalid parameter",
        }
    }
}

} // verus!
