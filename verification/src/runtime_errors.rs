//! Errors raised by the runtime layer: identifier parsing and engine
//! initialization.

use vstd::prelude::*;

verus! {

/// Error raised when a path identifier string cannot be parsed.
#[derive(Clone, Debug, PartialEq, Eq)]
pub struct PathIdentifierParseError {
    pub message: String,
}

impl PathIdentifierParseError {
    /// Renders the error as text.
    pub fn message(&self) -> (r: String)
        ensures
            r@ == "PathIdentifier string parse error: "@ + self.message@,
    {
        String::from_str("PathIdentifier string parse error: ").concat(self.message.as_str())
    }
}

/// The error raised by the process engine: a malformed path identifier
/// string, a process without any start event, which cannot run, or a
/// resume signal naming no paused token.
#[derive(Debug)]
pub enum ProcessEngineError {
    PathIdentifierFromStringError(PathIdentifierParseError),
    NoStartEvent,
    PausedTokenNotFound(String),
}

impl ProcessEngineError {
    /// Renders the error as text.
    pub fn message(&self) -> (r: String)
        ensures
            match *self {
                ProcessEngineError::PathIdentifierFromStringError(e) => r@
                    == "PathIdentifier string parse error: "@ + e.message@,
                ProcessEngineError::NoStartEvent => r@ == "No start event found in the process."@,
                ProcessEngineError::PausedTokenNotFound(id) => r@ == "No paused token with id: "@
                    + id@,
            },
    {
        match self {
            ProcessEngineError::PathIdentifierFromStringError(e) => String::from_str(
                "PathIdentifier string parse error: ",
            ).concat(e.message.as_str()),
            ProcessEngineError::NoStartEvent => String::from_str(
                "No start event found in the process.",
            ),
            ProcessEngineError::PausedTokenNotFound(id) => String::from_str(
                "No paused token with id: ",
            ).concat(id.as_str()),
        }
    }
}

} // verus!
