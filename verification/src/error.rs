//! The error type shared by every fallible operation of the service, and the
//! pure parts of its rendering as an HTTP response: the status code and the
//! message that the response body carries.

use vstd::prelude::*;
use vstd::string::*;

verus! {

/// Application-level error. Each variant carries a human-readable message;
/// the `Internal` message is never shown to a client (see
/// [`AppError::response_message`]).
#[derive(Debug, Clone)]
pub enum AppError {
    NotFound(String),
    BadRequest(String),
    Internal(String),
    Unauthorized(String),
}

impl AppError {
    /// The message carried by the variant, as a sequence of characters.
    pub open spec fn message_view(&self) -> Seq<char> {
        match self {
            AppError::NotFound(m) => m@,
            AppError::BadRequest(m) => m@,
            AppError::Internal(m) => m@,
            AppError::Unauthorized(m) => m@,
        }
    }

    /// The HTTP status code of the response this error is rendered as.
    pub open spec fn spec_code(&self) -> int {
        match self {
            AppError::NotFound(_) => 404,
            AppError::BadRequest(_) => 400,
            AppError::Internal(_) => 500,
            AppError::Unauthorized(_) => 401,
        }
    }

    /// The message of the response body: the carried message, except that an
    /// internal error is masked and never leaks its detail to the client.
    pub open spec fn spec_response_message(&self) -> Seq<char> {
        match self {
            AppError::Internal(_) => "Internal Server Error"@,
            _ => self.message_view(),
        }
    }

    /// The numeric `code` field of the structured response body.
    pub fn code(&self) -> (c: u16)
        ensures
            c as int == self.spec_code(),
    {
        match self {
            AppError::NotFound(_) => 404,
            AppError::BadRequest(_) => 400,
            AppError::Internal(_) => 500,
            AppError::Unauthorized(_) => 401,
        }
    }

    /// The `message` field of the structured response body.
    pub fn response_message(&self) -> (m: String)
        ensures
            m@ == self.spec_response_message(),
    {
        match self {
            AppError::NotFound(m) => m.clone(),
            AppError::BadRequest(m) => m.clone(),
            AppError::Internal(_) => String::from_str("Internal Server Error"),
            AppError::Unauthorized(m) => m.clone(),
        }
    }

    /// The carried message itself, untouched.
    pub fn message(&self) -> (m: String)
        ensures
            m@ == self.message_view(),
    {
        match self {
            AppError::NotFound(m) => m.clone(),
            AppError::BadRequest(m) => m.clone(),
            AppError::Internal(m) => m.clone(),
            AppError::Unauthorized(m) => m.clone(),
        }
    }

    /// One-line rendering of the error, variant name included.
    pub fn display_message(&self) -> (m: String)
        ensures
            m@ == match self {
                AppError::NotFound(s) => "Not Found: "@ + s@,
                AppError::BadRequest(s) => "Bad Request: "@ + s@,
                AppError::Internal(s) => "Internal Error: "@ + s@,
                AppError::Unauthorized(s) => "Unauthorized: "@ + s@,
            },
    {
        match self {
            AppError::NotFound(s) => String::from_str("Not Found: ").concat(s.as_str()),
            AppError::BadRequest(s) => String::from_str("Bad Request: ").concat(s.as_str()),
            AppError::Internal(s) => String::from_str("Internal Error: ").concat(s.as_str()),
            AppError::Unauthorized(s) => String::from_str("Unauthorized: ").concat(s.as_str()),
        }
    }
}

} // verus!
