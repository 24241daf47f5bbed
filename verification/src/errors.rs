//! Errors that requests are answered with.

use vstd::prelude::*;
use vstd::string::*;

verus! {

/// A refused request: the client sent something invalid, or asked for
/// something that does not exist.
#[derive(Debug)]
pub enum LogSystemError {
    Validation(String),
    NotFound(String),
}

pub type LogSystemResult<T> = Result<T, LogSystemError>;

/// The message that an error carries.
pub open spec fn error_message(e: LogSystemError) -> Seq<char> {
    match e {
        LogSystemError::Validation(m) => m@,
        LogSystemError::NotFound(m) => m@,
    }
}

/// The HTTP status an error is answered with.
pub open spec fn error_status(e: LogSystemError) -> u16 {
    match e {
        LogSystemError::Validation(_) => 400,
        LogSystemError::NotFound(_) => 404,
    }
}

/// The machine-readable code of an error.
pub open spec fn error_code(e: LogSystemError) -> Seq<char> {
    match e {
        LogSystemError::Validation(_) => "VALIDATION_ERROR"@,
        LogSystemError::NotFound(_) => "NOT_FOUND"@,
    }
}

/// How an error reads in logs: its kind, then its message.
pub open spec fn error_display(e: LogSystemError) -> Seq<char> {
    match e {
        LogSystemError::Validation(m) => "Validation error: "@ + m@,
        LogSystemError::NotFound(m) => "Not found: "@ + m@,
    }
}

impl LogSystemError {
    /// The HTTP status code: 400 (Bad Request) for a validation error, 404
    /// (Not Found) otherwise.
    pub fn status(&self) -> (r: u16)
        ensures
            r == error_status(*self),
    {
        match self {
            LogSystemError::Validation(_) => 400,
            LogSystemError::NotFound(_) => 404,
        }
    }

    /// The message shown to the client.
    pub fn client_message(&self) -> (r: String)
        ensures
            r@ == error_message(*self),
    {
        match self {
            LogSystemError::Validation(msg) => msg.clone(),
            LogSystemError::NotFound(msg) => msg.clone(),
        }
    }

    /// The machine-readable error code.
    pub fn code(&self) -> (r: &'static str)
        ensures
            r@ == error_code(*self),
    {
        match self {
            LogSystemError::Validation(_) => "VALIDATION_ERROR",
            LogSystemError::NotFound(_) => "NOT_FOUND",
        }
    }

    /// The text that `Display` shows for the error.
    pub fn to_display_string(&self) -> (r: String)
        ensures
            r@ == error_display(*self),
    {
        match self {
            LogSystemError::Validation(msg) => {
                let mut s = "Validation error: ".to_owned();
                s.append(msg.as_str());
                s
            },
            LogSystemError::NotFound(msg) => {
                let mut s = "Not found: ".to_owned();
                s.append(msg.as_str());
                s
            },
        }
    }
}

} // verus!
