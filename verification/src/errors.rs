use vstd::prelude::*;
use vstd::std_specs::convert::FromSpecImpl;
use vstd::string::StringExecFns;

use crate::text::owned;

verus! {

/// HTTP status codes the error mapping produces.
pub const STATUS_BAD_REQUEST: u16 = 400;

pub const STATUS_NOT_FOUND: u16 = 404;

pub const STATUS_CONFLICT: u16 = 409;

pub const STATUS_INTERNAL_SERVER_ERROR: u16 = 500;

/// Failure reported by a storage repository.
#[derive(Debug, PartialEq, Eq)]
pub enum RepositoryError {
    NotFound,
    Conflict(String),
    Unexpected(String),
}

/// Failure of an application operation.
#[derive(Debug, PartialEq, Eq)]
pub enum AppError {
    Validation(String),
    Conflict(String),
    NotFound,
    Unexpected(String),
}

/// The JSON body of an error response.
#[derive(Debug, PartialEq, Eq)]
pub struct ErrorResponse {
    pub message: String,
}

/// An application error on its way to becoming an HTTP response.
#[derive(Debug)]
pub struct ApiError(pub AppError);

/// The text that a client is shown for an error.
pub open spec fn public_message(err: AppError) -> Seq<char> {
    match err {
        AppError::Validation(m) => m@,
        AppError::Conflict(m) => m@,
        AppError::NotFound => "entity not found"@,
        AppError::Unexpected(_) => "unexpected error"@,
    }
}

/// The status code of an error.
pub open spec fn status_of(err: AppError) -> u16 {
    match err {
        AppError::Validation(_) => STATUS_BAD_REQUEST,
        AppError::Conflict(_) => STATUS_CONFLICT,
        AppError::NotFound => STATUS_NOT_FOUND,
        AppError::Unexpected(_) => STATUS_INTERNAL_SERVER_ERROR,
    }
}

/// The application error a repository failure becomes.
pub open spec fn repository_error_to_app(err: RepositoryError) -> AppError {
    match err {
        RepositoryError::NotFound => AppError::NotFound,
        RepositoryError::Conflict(m) => AppError::Conflict(m),
        RepositoryError::Unexpected(m) => AppError::Unexpected(m),
    }
}

/// The text of an error as logs and error chains write it.
pub open spec fn display_of(err: AppError) -> Seq<char> {
    match err {
        AppError::Validation(m) => "validation failed: "@ + m@,
        AppError::Conflict(m) => "conflict: "@ + m@,
        AppError::NotFound => "entity not found"@,
        AppError::Unexpected(m) => "unexpected error: "@ + m@,
    }
}

/// Whether `err` is a validation error carrying exactly `msg`.
pub open spec fn is_validation(err: AppError, msg: Seq<char>) -> bool {
    err matches AppError::Validation(m) && m@ == msg
}

impl ErrorResponse {
    pub fn new(message: &str) -> (res: Self)
        ensures
            res.message@ == message@,
    {
        ErrorResponse { message: owned(message) }
    }
}

impl AppError {
    pub fn validation(msg: &str) -> (res: Self)
        ensures
            is_validation(res, msg@),
    {
        AppError::Validation(owned(msg))
    }

    pub fn unexpected(msg: &str) -> (res: Self)
        ensures
            res matches AppError::Unexpected(m) && m@ == msg@,
    {
        AppError::Unexpected(owned(msg))
    }

    /// The error as logs and error chains write it.
    pub fn display_text(&self) -> (res: String)
        ensures
            res@ == display_of(*self),
    {
        match self {
            AppError::Validation(m) => {
                let mut t = owned("validation failed: ");
                t.append(m.as_str());
                t
            },
            AppError::Conflict(m) => {
                let mut t = owned("conflict: ");
                t.append(m.as_str());
                t
            },
            AppError::NotFound => owned("entity not found"),
            AppError::Unexpected(m) => {
                let mut t = owned("unexpected error: ");
                t.append(m.as_str());
                t
            },
        }
    }
}

impl From<RepositoryError> for AppError {
    fn from(value: RepositoryError) -> (res: Self) {
        match value {
            RepositoryError::NotFound => AppError::NotFound,
            RepositoryError::Conflict(msg) => AppError::Conflict(msg),
            RepositoryError::Unexpected(msg) => AppError::Unexpected(msg),
        }
    }
}

impl FromSpecImpl<RepositoryError> for AppError {
    open spec fn obeys_from_spec() -> bool {
        true
    }

    open spec fn from_spec(value: RepositoryError) -> Self {
        repository_error_to_app(value)
    }
}

impl From<AppError> for ApiError {
    fn from(value: AppError) -> (res: Self) {
        ApiError(value)
    }
}

impl FromSpecImpl<AppError> for ApiError {
    open spec fn obeys_from_spec() -> bool {
        true
    }

    open spec fn from_spec(value: AppError) -> Self {
        ApiError(value)
    }
}

/// The status code for an application error.
pub fn map_app_error(err: AppError) -> (res: u16)
    ensures
        res == status_of(err),
{
    match err {
        AppError::Validation(_) => STATUS_BAD_REQUEST,
        AppError::Conflict(_) => STATUS_CONFLICT,
        AppError::NotFound => STATUS_NOT_FOUND,
        AppError::Unexpected(_) => STATUS_INTERNAL_SERVER_ERROR,
    }
}

impl ApiError {
    /// The status code and JSON body of the response for this error. The text
    /// of an unexpected error stays on the server: the client is told only
    /// "unexpected error".
    pub fn into_response_parts(self) -> (res: (u16, ErrorResponse))
        ensures
            res.0 == status_of(self.0),
            res.1.message@ == public_message(self.0),
    {
        match self.0 {
            AppError::Validation(message) => (STATUS_BAD_REQUEST, ErrorResponse { message }),
            AppError::Conflict(message) => (STATUS_CONFLICT, ErrorResponse { message }),
            AppError::NotFound => (STATUS_NOT_FOUND, ErrorResponse::new("entity not found")),
            AppError::Unexpected(_) => (
                STATUS_INTERNAL_SERVER_ERROR,
                ErrorResponse::new("unexpected error"),
            ),
        }
    }
}

/// An error response has the same status code that `map_app_error` gives the
/// error it was made from, whichever way the handler reports it.
pub proof fn law_response_status_agrees(err: AppError)
    ensures
        status_of(ApiError(err).0) == status_of(err),
        status_of(err) == STATUS_BAD_REQUEST <==> err is Validation,
        status_of(err) == STATUS_INTERNAL_SERVER_ERROR <==> err is Unexpected,
{
}

/// A repository failure keeps its kind and its message when it becomes an
/// application error: a missing row is answered with 404, a conflict with 409
/// and its message, anything else with 500 and no detail.
pub proof fn law_repository_errors_keep_kind(err: RepositoryError)
    ensures
        err is NotFound ==> status_of(repository_error_to_app(err)) == STATUS_NOT_FOUND,
        err matches RepositoryError::Conflict(m) ==> status_of(repository_error_to_app(err))
            == STATUS_CONFLICT && public_message(repository_error_to_app(err)) == m@,
        err is Unexpected ==> status_of(repository_error_to_app(err))
            == STATUS_INTERNAL_SERVER_ERROR && public_message(repository_error_to_app(err))
            == "unexpected error"@,
{
}

} // verus!
