use vstd::prelude::*;
use vstd::string::StringExecFns;

verus! {

/// Errors that can occur in the Lambda runtime
#[derive(Debug, Clone)]
pub enum RuntimeError {
    /// Server failed to start
    ServerStart(String),
    /// Failed to parse incoming request
    RequestParsing(String),
    /// Failed to build response
    ResponseBuilding(String),
    /// User handler panicked or failed
    HandlerError(String),
}

/// Result type for runtime operations
pub type RuntimeResult<T> = Result<T, RuntimeError>;

impl RuntimeError {
    /// The error's text: a prefix naming the kind, then the message.
    pub open spec fn text(&self) -> Seq<char> {
        match self {
            RuntimeError::ServerStart(msg) => "Server start error: "@ + msg@,
            RuntimeError::RequestParsing(msg) => "Request parsing error: "@ + msg@,
            RuntimeError::ResponseBuilding(msg) => "Response building error: "@ + msg@,
            RuntimeError::HandlerError(msg) => "Handler error: "@ + msg@,
        }
    }

    /// The error's text, as `Display` would show it.
    pub fn to_string(&self) -> (s: String)
        ensures
            s@ == self.text(),
    {
        let (prefix, msg) = match self {
            RuntimeError::ServerStart(msg) => ("Server start error: ", msg),
            RuntimeError::RequestParsing(msg) => ("Request parsing error: ", msg),
            RuntimeError::ResponseBuilding(msg) => ("Response building error: ", msg),
            RuntimeError::HandlerError(msg) => ("Handler error: ", msg),
        };
        let mut s = String::from_str(prefix);
        s.append(msg.as_str());
        s
    }
}

} // verus!
