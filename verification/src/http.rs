//! The status code that the service answers a failed request with.

use vstd::prelude::*;

verus! {

/// An HTTP status code.
#[derive(Clone, Copy, Debug, PartialEq, Eq, Structural)]
pub struct HttpStatus {
    pub code: u16,
}

/// The result of a request handler: a value, or the status code to answer with.
pub type ApiResult<T> = Result<T, HttpStatus>;

impl HttpStatus {
    /// The status with the given code.
    pub fn new(code: u16) -> (status: HttpStatus)
        ensures
            status.code == code,
    {
        HttpStatus { code }
    }
}

} // verus!
