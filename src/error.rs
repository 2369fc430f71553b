//! Errors of the memo store, and how each is presented to an HTTP client.

use vstd::prelude::*;

verus! {

/// An error of the memo store. Each variant carries a human-readable message.
#[derive(Debug)]
pub enum AppError {
    InternalServerError(String),
    NotFound(String),
    BadRequest(String),
    ValidationError(String),
    DatabaseError(String),
    Conflict(String),
    Unauthorized(String),
    /// The primary store could not be reached; fatal to the operation.
    StorageUnavailable(String),
    /// The search index could not be reached; `search` has no fallback.
    IndexUnavailable(String),
}

pub type AppResult<T> = Result<T, AppError>;

/// The HTTP status that presents an error.
pub open spec fn status_of(e: AppError) -> u16 {
    match e {
        AppError::NotFound(_) => 404,
        AppError::BadRequest(_) => 400,
        AppError::ValidationError(_) => 422,
        AppError::Unauthorized(_) => 401,
        AppError::Conflict(_) => 409,
        _ => 500,
    }
}

/// Whether an error's own message may be shown to the client.
pub open spec fn is_disclosed(e: AppError) -> bool {
    status_of(e) != 500
}

impl AppError {
    /// The message the error carries.
    pub open spec fn message_of(self) -> Seq<char> {
        match self {
            AppError::InternalServerError(m) => m@,
            AppError::NotFound(m) => m@,
            AppError::BadRequest(m) => m@,
            AppError::ValidationError(m) => m@,
            AppError::DatabaseError(m) => m@,
            AppError::Conflict(m) => m@,
            AppError::Unauthorized(m) => m@,
            AppError::StorageUnavailable(m) => m@,
            AppError::IndexUnavailable(m) => m@,
        }
    }

    /// The HTTP status code of the response for this error.
    pub fn status_code(&self) -> (r: u16)
        ensures
            r == status_of(*self),
    {
        match self {
            AppError::NotFound(_) => 404,
            AppError::BadRequest(_) => 400,
            AppError::ValidationError(_) => 422,
            AppError::Unauthorized(_) => 401,
            AppError::Conflict(_) => 409,
            _ => 500,
        }
    }

    /// The short error title of the response body.
    pub fn error_title(&self) -> (r: &'static str)
        ensures
            status_of(*self) == 404 ==> r@ == "Not Found"@,
            status_of(*self) == 400 ==> r@ == "Bad Request"@,
            status_of(*self) == 422 ==> r@ == "Validation Error"@,
            status_of(*self) == 401 ==> r@ == "Unauthorized"@,
            status_of(*self) == 409 ==> r@ == "Conflict"@,
            status_of(*self) == 500 ==> r@ == "Internal Server Error"@,
    {
        match self {
            AppError::NotFound(_) => "Not Found",
            AppError::BadRequest(_) => "Bad Request",
            AppError::ValidationError(_) => "Validation Error",
            AppError::Unauthorized(_) => "Unauthorized",
            AppError::Conflict(_) => "Conflict",
            _ => "Internal Server Error",
        }
    }

    /// The message of the response body: the error's own message for client
    /// errors, a fixed text for server errors, whose details stay internal.
    pub fn client_message(&self) -> (r: String)
        ensures
            is_disclosed(*self) ==> r@ == self.message_of(),
            !is_disclosed(*self) ==> r@ == "An unexpected error occurred"@,
    {
        match self {
            AppError::NotFound(m) => m.clone(),
            AppError::BadRequest(m) => m.clone(),
            AppError::ValidationError(m) => m.clone(),
            AppError::Unauthorized(m) => m.clone(),
            AppError::Conflict(m) => m.clone(),
            _ => String::from_str("An unexpected error occurred"),
        }
    }
}

} // verus!
