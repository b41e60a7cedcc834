//! The error taxonomy shared by every service.

use vstd::prelude::*;
use vstd::string::StringExecFns;

verus! {

/// What a failed operation reports to its caller.
///
/// Malformed input is `BadRequest`, a missing row is `NotFound`, a row that
/// stands in the way of a new one is `Conflict`, a rejected credential is
/// `Unauthorized`, and failures of the datastore or of hashing are
/// `DbError` and `InternalError`.
#[derive(Debug)]
pub enum AppError {
    DbError(String),
    Unauthorized,
    BadRequest(String),
    NotFound(String),
    Conflict(String),
    InternalError,
}

/// An error with its message as a sequence of characters.
pub enum ErrorView {
    DbError(Seq<char>),
    Unauthorized,
    BadRequest(Seq<char>),
    NotFound(Seq<char>),
    Conflict(Seq<char>),
    InternalError,
}

impl View for AppError {
    type V = ErrorView;

    open spec fn view(&self) -> ErrorView {
        match self {
            AppError::DbError(m) => ErrorView::DbError(m@),
            AppError::Unauthorized => ErrorView::Unauthorized,
            AppError::BadRequest(m) => ErrorView::BadRequest(m@),
            AppError::NotFound(m) => ErrorView::NotFound(m@),
            AppError::Conflict(m) => ErrorView::Conflict(m@),
            AppError::InternalError => ErrorView::InternalError,
        }
    }
}

impl AppError {
    /// This error is `BadRequest` with exactly the message `msg`.
    pub open spec fn is_bad_request(&self, msg: Seq<char>) -> bool {
        self@ == ErrorView::BadRequest(msg)
    }

    /// This error is `NotFound` with exactly the message `msg`.
    pub open spec fn is_not_found(&self, msg: Seq<char>) -> bool {
        self@ == ErrorView::NotFound(msg)
    }

    /// This error is `Conflict` with exactly the message `msg`.
    pub open spec fn is_conflict(&self, msg: Seq<char>) -> bool {
        self@ == ErrorView::Conflict(msg)
    }

    /// This error is `DbError` with exactly the message `msg`.
    pub open spec fn is_db_error(&self, msg: Seq<char>) -> bool {
        self@ == ErrorView::DbError(msg)
    }

    /// The HTTP status class of each variant.
    pub open spec fn spec_status_code(&self) -> int {
        match self {
            AppError::DbError(_) => 500,
            AppError::Unauthorized => 401,
            AppError::BadRequest(_) => 400,
            AppError::NotFound(_) => 404,
            AppError::Conflict(_) => 409,
            AppError::InternalError => 500,
        }
    }

    /// The text shown to the caller for each variant.
    pub open spec fn spec_message(&self) -> Seq<char> {
        match self {
            AppError::DbError(m) => "Database error: "@ + m@,
            AppError::Unauthorized => "Unauthorized"@,
            AppError::BadRequest(m) => "Bad request: "@ + m@,
            AppError::NotFound(_) => "Not found"@,
            AppError::Conflict(m) => "Conflict: "@ + m@,
            AppError::InternalError => "Internal error"@,
        }
    }

    /// A `BadRequest` carrying `msg`.
    pub fn bad_request(msg: &str) -> (e: AppError)
        ensures
            e.is_bad_request(msg@),
    {
        AppError::BadRequest(String::from_str(msg))
    }

    /// A `NotFound` carrying `msg`.
    pub fn not_found(msg: &str) -> (e: AppError)
        ensures
            e.is_not_found(msg@),
    {
        AppError::NotFound(String::from_str(msg))
    }

    /// A `Conflict` carrying `msg`.
    pub fn conflict(msg: &str) -> (e: AppError)
        ensures
            e.is_conflict(msg@),
    {
        AppError::Conflict(String::from_str(msg))
    }

    /// A `DbError` carrying `msg`.
    pub fn db_error(msg: &str) -> (e: AppError)
        ensures
            e.is_db_error(msg@),
    {
        AppError::DbError(String::from_str(msg))
    }

    /// The HTTP status code that answers this error.
    pub fn status_code(&self) -> (code: u16)
        ensures
            code as int == self.spec_status_code(),
    {
        match self {
            AppError::DbError(_) => 500,
            AppError::Unauthorized => 401,
            AppError::BadRequest(_) => 400,
            AppError::NotFound(_) => 404,
            AppError::Conflict(_) => 409,
            AppError::InternalError => 500,
        }
    }

    /// The message of this error, as it appears in an error response.
    pub fn message(&self) -> (text: String)
        ensures
            text@ == self.spec_message(),
    {
        match self {
            AppError::DbError(m) => String::from_str("Database error: ").concat(m.as_str()),
            AppError::Unauthorized => String::from_str("Unauthorized"),
            AppError::BadRequest(m) => String::from_str("Bad request: ").concat(m.as_str()),
            AppError::NotFound(_) => String::from_str("Not found"),
            AppError::Conflict(m) => String::from_str("Conflict: ").concat(m.as_str()),
            AppError::InternalError => String::from_str("Internal error"),
        }
    }
}

} // verus!
