use vstd::prelude::*;
use vstd::string::StringExecFns;

verus! {

/// The headers that the runtime and its functions add to responses.
#[derive(Debug, Clone, Copy, PartialEq, Eq, Structural)]
pub enum CustomHeader {
    FunctionName,
    LambdaPort,
    ErrorType,
    HandlerVersion,
    ProcessingDelayMs,
    LambdaRequestId,
    LambdaExecutionTimeMs,
}

impl CustomHeader {
    /// The header's name on the wire.
    pub open spec fn name(self) -> Seq<char> {
        match self {
            CustomHeader::FunctionName => "x-function-name"@,
            CustomHeader::LambdaPort => "x-lambda-port"@,
            CustomHeader::ErrorType => "x-error-type"@,
            CustomHeader::HandlerVersion => "x-handler-version"@,
            CustomHeader::ProcessingDelayMs => "x-processing-delay-ms"@,
            CustomHeader::LambdaRequestId => "x-lambda-request-id"@,
            CustomHeader::LambdaExecutionTimeMs => "x-lambda-execution-time-ms"@,
        }
    }

    /// The header's name on the wire.
    pub fn as_ref(&self) -> (r: &'static str)
        ensures
            r@ == self.name(),
    {
        match self {
            CustomHeader::FunctionName => "x-function-name",
            CustomHeader::LambdaPort => "x-lambda-port",
            CustomHeader::ErrorType => "x-error-type",
            CustomHeader::HandlerVersion => "x-handler-version",
            CustomHeader::ProcessingDelayMs => "x-processing-delay-ms",
            CustomHeader::LambdaRequestId => "x-lambda-request-id",
            CustomHeader::LambdaExecutionTimeMs => "x-lambda-execution-time-ms",
        }
    }

    /// The header's name, as `Display` would show it.
    pub fn to_string(&self) -> (s: String)
        ensures
            s@ == self.name(),
    {
        String::from_str(self.as_ref())
    }
}

} // verus!
