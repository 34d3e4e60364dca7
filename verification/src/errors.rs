use vstd::prelude::*;

verus! {

/// The failure kinds an operation on the todo list can surface.
///
/// `NotFound` means the referenced todo id does not exist in the session's
/// list; `InternalError` carries the description of an unexpected
/// collaborator failure.
#[derive(Debug)]
pub enum ApplicationError {
    NotFound,
    InternalError(String),
}

/// The HTTP status code that stands for "not found".
pub const NOT_FOUND_STATUS: u16 = 404;

/// The HTTP status code that stands for an internal server error.
pub const INTERNAL_ERROR_STATUS: u16 = 500;

impl ApplicationError {
    /// The status code this error maps to.
    pub open spec fn spec_status(&self) -> u16 {
        match self {
            ApplicationError::NotFound => NOT_FOUND_STATUS,
            ApplicationError::InternalError(_) => INTERNAL_ERROR_STATUS,
        }
    }

    /// The plain-text body this error maps to: a fixed message for
    /// `NotFound`, the carried description for `InternalError`.
    pub open spec fn spec_body(self) -> Seq<char> {
        match self {
            ApplicationError::NotFound => "Not found"@,
            ApplicationError::InternalError(e) => e@,
        }
    }

    /// Turns the error into the status code and body of its response.
    pub fn response_parts(self) -> (r: (u16, String))
        ensures
            r.0 == self.spec_status(),
            r.1@ == self.spec_body(),
    {
        match self {
            ApplicationError::NotFound => (NOT_FOUND_STATUS, String::from_str("Not found")),
            ApplicationError::InternalError(e) => (INTERNAL_ERROR_STATUS, e),
        }
    }
}

} // verus!
