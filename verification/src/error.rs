//! The error type of the library and the text each error is shown with.
use vstd::prelude::*;
use crate::text::concat;

verus! {

/// What can go wrong; each variant carries a human-readable message.
///
/// `Io` and `Http` carry the text of the I/O or HTTP-client error that
/// caused them.
#[derive(Debug, Clone, PartialEq, Eq)]
pub enum AppError {
    Config(String),
    Validation(String),
    Io(String),
    Http(String),
    Address(String),
    Unauthorized(String),
    Forbidden(String),
    NotFound(String),
    Conflict(String),
    Storage(String),
    Crypto(String),
    Serialization(String),
    Server(String),
}

impl AppError {
    /// The message the error carries.
    pub open spec fn message_view(self) -> Seq<char> {
        match self {
            AppError::Config(m) => m@,
            AppError::Validation(m) => m@,
            AppError::Io(m) => m@,
            AppError::Http(m) => m@,
            AppError::Address(m) => m@,
            AppError::Unauthorized(m) => m@,
            AppError::Forbidden(m) => m@,
            AppError::NotFound(m) => m@,
            AppError::Conflict(m) => m@,
            AppError::Storage(m) => m@,
            AppError::Crypto(m) => m@,
            AppError::Serialization(m) => m@,
            AppError::Server(m) => m@,
        }
    }

    /// The words that introduce the message when the error is shown.
    pub open spec fn label(self) -> Seq<char> {
        match self {
            AppError::Config(_) => "config error: "@,
            AppError::Validation(_) => "validation error: "@,
            AppError::Io(_) => "I/O error: "@,
            AppError::Http(_) => "HTTP client error: "@,
            AppError::Address(_) => "address error: "@,
            AppError::Unauthorized(_) => "authentication error: "@,
            AppError::Forbidden(_) => "forbidden: "@,
            AppError::NotFound(_) => "not found: "@,
            AppError::Conflict(_) => "conflict: "@,
            AppError::Storage(_) => "storage error: "@,
            AppError::Crypto(_) => "crypto error: "@,
            AppError::Serialization(_) => "serialization error: "@,
            AppError::Server(_) => "server error: "@,
        }
    }

    /// The error as it is shown to a person: its label, then its message.
    pub open spec fn display(self) -> Seq<char> {
        self.label() + self.message_view()
    }

    /// The error as it is shown to a person, e.g. `config error: bad config`.
    pub fn to_string(&self) -> (r: String)
        ensures
            r@ == self.display(),
    {
        match self {
            AppError::Config(m) => concat("config error: ", m.as_str()),
            AppError::Validation(m) => concat("validation error: ", m.as_str()),
            AppError::Io(m) => concat("I/O error: ", m.as_str()),
            AppError::Http(m) => concat("HTTP client error: ", m.as_str()),
            AppError::Address(m) => concat("address error: ", m.as_str()),
            AppError::Unauthorized(m) => concat("authentication error: ", m.as_str()),
            AppError::Forbidden(m) => concat("forbidden: ", m.as_str()),
            AppError::NotFound(m) => concat("not found: ", m.as_str()),
            AppError::Conflict(m) => concat("conflict: ", m.as_str()),
            AppError::Storage(m) => concat("storage error: ", m.as_str()),
            AppError::Crypto(m) => concat("crypto error: ", m.as_str()),
            AppError::Serialization(m) => concat("serialization error: ", m.as_str()),
            AppError::Server(m) => concat("server error: ", m.as_str()),
        }
    }

    /// The exit status the program ends with on this error: 2 for a bad
    /// configuration or request, 3 when authentication or a scope is
    /// refused, 4 when something is not found, 6 when the server cannot be
    /// reached or answers unexpectedly, 1 otherwise.
    pub open spec fn exit_status(self) -> i32 {
        match self {
            AppError::Config(_) | AppError::Validation(_) => 2,
            AppError::Unauthorized(_) | AppError::Forbidden(_) => 3,
            AppError::NotFound(_) => 4,
            AppError::Http(_) => 6,
            _ => 1,
        }
    }

    /// The exit status the program ends with on this error.
    pub fn exit_code(&self) -> (code: i32)
        ensures
            code == self.exit_status(),
    {
        match self {
            AppError::Config(_) => 2,
            AppError::Validation(_) => 2,
            AppError::Unauthorized(_) => 3,
            AppError::Forbidden(_) => 3,
            AppError::NotFound(_) => 4,
            AppError::Http(_) => 6,
            _ => 1,
        }
    }
}


/// The error type of `rusqlite`, the SQLite driver the store runs on.
#[verifier::external_type_specification]
#[verifier::external_body]
pub struct ExSqliteError(rusqlite::Error);

/// Calls `to_string()` (the `Display` of `rusqlite::Error`) on a driver
/// error. Claimed: nothing of the text.
#[verifier::external_body]
fn sqlite_error_text(e: &rusqlite::Error) -> (s: String) {
    e.to_string()
}

/// A failure of the SQLite driver, as the library reports it: a storage
/// error with the driver's text.
pub fn storage_error(e: rusqlite::Error) -> (r: AppError)
    ensures
        r is Storage,
{
    AppError::Storage(sqlite_error_text(&e))
}

} // verus!
