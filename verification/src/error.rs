//! The error type of the HTTP handlers and the status code each kind is answered with.
use vstd::prelude::*;

verus! {

/// An error a handler answers a request with.
pub enum AppError {
    /// The request is not authenticated, or its credentials are wrong (401).
    Unauthorized(String),
    /// The request is malformed or refers to state that does not exist (400).
    BadRequest(String),
    /// The request conflicts with existing data, such as a taken username (409).
    Conflict(String),
    /// Something failed on the server's side (500).
    Internal(String),
}

/// The HTTP status code of each kind of error.
pub open spec fn status_of(e: AppError) -> u16 {
    match e {
        AppError::Unauthorized(_) => 401,
        AppError::BadRequest(_) => 400,
        AppError::Conflict(_) => 409,
        AppError::Internal(_) => 500,
    }
}

/// The message that an error carries.
pub open spec fn message_of(e: AppError) -> Seq<char> {
    match e {
        AppError::Unauthorized(m) => m@,
        AppError::BadRequest(m) => m@,
        AppError::Conflict(m) => m@,
        AppError::Internal(m) => m@,
    }
}

impl AppError {
    /// The status code and the message body of the response that answers this error.
    pub fn into_status_and_message(self) -> (r: (u16, String))
        ensures
            r.0 == status_of(self),
            r.1@ == message_of(self),
    {
        match self {
            AppError::Unauthorized(msg) => (401, msg),
            AppError::BadRequest(msg) => (400, msg),
            AppError::Conflict(msg) => (409, msg),
            AppError::Internal(msg) => (500, msg),
        }
    }
}

} // verus!
