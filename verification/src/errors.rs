//! The error type shared by every fallible operation.

use vstd::prelude::*;
use vstd::string::*;

verus! {

/// The four ways an operation can fail.
#[derive(Clone, Copy, Debug, PartialEq, Eq, Structural)]
pub enum ErrorKind {
    /// The request is malformed or not allowed in the current state.
    Validation,
    /// A room, player or assignment is unknown.
    NotFound,
    /// The caller lacks the token, the turn or the role for the action.
    Forbidden,
    /// A lower-level failure.
    Unexpected,
}

/// A failure, with a message meant for people.
#[derive(Debug, PartialEq, Eq)]
pub enum AppError {
    BadRequest(String),
    NotFound(String),
    Forbidden(String),
    Unexpected(String),
}

impl AppError {
    /// The kind of this failure.
    pub open spec fn kind(&self) -> ErrorKind {
        match self {
            AppError::BadRequest(_) => ErrorKind::Validation,
            AppError::NotFound(_) => ErrorKind::NotFound,
            AppError::Forbidden(_) => ErrorKind::Forbidden,
            AppError::Unexpected(_) => ErrorKind::Unexpected,
        }
    }

    /// The message carried by this failure.
    pub open spec fn message(&self) -> Seq<char> {
        match self {
            AppError::BadRequest(m) => m@,
            AppError::NotFound(m) => m@,
            AppError::Forbidden(m) => m@,
            AppError::Unexpected(m) => m@,
        }
    }

    /// The prefix that `describe` puts before the message.
    pub open spec fn prefix(kind: ErrorKind) -> Seq<char> {
        match kind {
            ErrorKind::Validation => "bad request: "@,
            ErrorKind::NotFound => "not found: "@,
            ErrorKind::Forbidden => "forbidden: "@,
            ErrorKind::Unexpected => ""@,
        }
    }

    /// The numeric status that a transport reports for a kind.
    pub open spec fn status_of(kind: ErrorKind) -> u16 {
        match kind {
            ErrorKind::Validation => 400,
            ErrorKind::NotFound => 404,
            ErrorKind::Forbidden => 403,
            ErrorKind::Unexpected => 500,
        }
    }

    pub fn bad_request(msg: &str) -> (e: AppError)
        ensures
            e.kind() == ErrorKind::Validation,
            e.message() == msg@,
    {
        AppError::BadRequest(String::from_str(msg))
    }

    pub fn not_found(msg: &str) -> (e: AppError)
        ensures
            e.kind() == ErrorKind::NotFound,
            e.message() == msg@,
    {
        AppError::NotFound(String::from_str(msg))
    }

    pub fn forbidden(msg: &str) -> (e: AppError)
        ensures
            e.kind() == ErrorKind::Forbidden,
            e.message() == msg@,
    {
        AppError::Forbidden(String::from_str(msg))
    }

    pub fn unexpected(msg: &str) -> (e: AppError)
        ensures
            e.kind() == ErrorKind::Unexpected,
            e.message() == msg@,
    {
        AppError::Unexpected(String::from_str(msg))
    }

    /// The kind, for executable code.
    pub fn error_kind(&self) -> (k: ErrorKind)
        ensures
            k == self.kind(),
    {
        match self {
            AppError::BadRequest(_) => ErrorKind::Validation,
            AppError::NotFound(_) => ErrorKind::NotFound,
            AppError::Forbidden(_) => ErrorKind::Forbidden,
            AppError::Unexpected(_) => ErrorKind::Unexpected,
        }
    }

    /// 400, 404, 403 or 500, by kind.
    pub fn status_code(&self) -> (code: u16)
        ensures
            code == Self::status_of(self.kind()),
    {
        match self {
            AppError::BadRequest(_) => 400,
            AppError::NotFound(_) => 404,
            AppError::Forbidden(_) => 403,
            AppError::Unexpected(_) => 500,
        }
    }

    /// The text shown to a caller: the kind's prefix, then the message.
    pub fn describe(&self) -> (text: String)
        ensures
            text@ == Self::prefix(self.kind()) + self.message(),
    {
        match self {
            AppError::BadRequest(m) => String::from_str("bad request: ").concat(m.as_str()),
            AppError::NotFound(m) => String::from_str("not found: ").concat(m.as_str()),
            AppError::Forbidden(m) => String::from_str("forbidden: ").concat(m.as_str()),
            AppError::Unexpected(m) => String::from_str("").concat(m.as_str()),
        }
    }
}

} // verus!
