//! The error kinds of the client. Every failure is one of these; all are
//! terminal for a run and are reported as a single line.

use vstd::prelude::*;
use vstd::string::StringExecFns;

verus! {

/// One error kind per failing subsystem.
#[derive(Debug)]
pub enum AppError {
    /// A required credential is absent from the configuration; holds the
    /// credential's name.
    ConfigError(String),
    /// A transport-level failure on the token or listing call; holds a
    /// one-line description.
    NetworkError(String),
    /// A response body that is not valid JSON or lacks the expected shape.
    ProtocolError,
    /// A stream record with a required field missing or of the wrong type;
    /// holds the field's name.
    DecodeError(String),
}

/// The single diagnostic line for each error kind.
pub open spec fn message_view(e: AppError) -> Seq<char> {
    match e {
        AppError::ConfigError(name) => "Missing credential: "@ + name@,
        AppError::NetworkError(detail) => "Network error: "@ + detail@,
        AppError::ProtocolError => "Malformed response"@,
        AppError::DecodeError(field) => "Malformed stream record: bad field "@ + field@,
    }
}

impl AppError {
    /// One human-readable line describing the error.
    pub fn message(&self) -> (r: String)
        ensures
            r@ == message_view(*self),
    {
        match self {
            AppError::ConfigError(name) => {
                let mut s = "Missing credential: ".to_owned();
                s.append(name.as_str());
                s
            },
            AppError::NetworkError(detail) => {
                let mut s = "Network error: ".to_owned();
                s.append(detail.as_str());
                s
            },
            AppError::ProtocolError => "Malformed response".to_owned(),
            AppError::DecodeError(field) => {
                let mut s = "Malformed stream record: bad field ".to_owned();
                s.append(field.as_str());
                s
            },
        }
    }
}

} // verus!
