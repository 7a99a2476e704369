//! The error vocabulary of the remote API and of the transport around it.

use vstd::prelude::*;
use vstd::string::StringExecFns;

verus! {

/// The closed set of error codes the remote API reports. An integer not
/// in the set decodes to `Unknown`.
#[derive(Clone, Copy, Debug, PartialEq, Eq, Structural)]
pub enum ErrorCode {
    Unknown,
    InvalidService,
    InvalidMethod,
    AuthenticationFailed,
    InvalidFormat,
    InvalidParameters,
    InvalidResource,
    OperationFailed,
    InvalidSessionKey,
    InvalidApiKey,
    ServiceOffline,
    InvalidMethodSignature,
    TemporaryError,
    SuspendedApiKey,
    RateLimitExceeded,
}

/// The code a reported integer stands for.
pub open spec fn code_of_spec(n: int) -> ErrorCode {
    if n == 2 {
        ErrorCode::InvalidService
    } else if n == 3 {
        ErrorCode::InvalidMethod
    } else if n == 4 {
        ErrorCode::AuthenticationFailed
    } else if n == 5 {
        ErrorCode::InvalidFormat
    } else if n == 6 {
        ErrorCode::InvalidParameters
    } else if n == 7 {
        ErrorCode::InvalidResource
    } else if n == 8 {
        ErrorCode::OperationFailed
    } else if n == 9 {
        ErrorCode::InvalidSessionKey
    } else if n == 10 {
        ErrorCode::InvalidApiKey
    } else if n == 11 {
        ErrorCode::ServiceOffline
    } else if n == 13 {
        ErrorCode::InvalidMethodSignature
    } else if n == 16 {
        ErrorCode::TemporaryError
    } else if n == 26 {
        ErrorCode::SuspendedApiKey
    } else if n == 29 {
        ErrorCode::RateLimitExceeded
    } else {
        ErrorCode::Unknown
    }
}

/// Decodes a reported error code; an unrecognized integer maps to
/// `Unknown` rather than failing.
pub fn parse_code(n: i64) -> (r: ErrorCode)
    ensures
        r == code_of_spec(n as int),
{
    if n == 2 {
        ErrorCode::InvalidService
    } else if n == 3 {
        ErrorCode::InvalidMethod
    } else if n == 4 {
        ErrorCode::AuthenticationFailed
    } else if n == 5 {
        ErrorCode::InvalidFormat
    } else if n == 6 {
        ErrorCode::InvalidParameters
    } else if n == 7 {
        ErrorCode::InvalidResource
    } else if n == 8 {
        ErrorCode::OperationFailed
    } else if n == 9 {
        ErrorCode::InvalidSessionKey
    } else if n == 10 {
        ErrorCode::InvalidApiKey
    } else if n == 11 {
        ErrorCode::ServiceOffline
    } else if n == 13 {
        ErrorCode::InvalidMethodSignature
    } else if n == 16 {
        ErrorCode::TemporaryError
    } else if n == 26 {
        ErrorCode::SuspendedApiKey
    } else if n == 29 {
        ErrorCode::RateLimitExceeded
    } else {
        ErrorCode::Unknown
    }
}

/// The name of an error code, for messages.
pub open spec fn code_name_spec(c: ErrorCode) -> Seq<char> {
    match c {
        ErrorCode::Unknown => "Unknown"@,
        ErrorCode::InvalidService => "InvalidService"@,
        ErrorCode::InvalidMethod => "InvalidMethod"@,
        ErrorCode::AuthenticationFailed => "AuthenticationFailed"@,
        ErrorCode::InvalidFormat => "InvalidFormat"@,
        ErrorCode::InvalidParameters => "InvalidParameters"@,
        ErrorCode::InvalidResource => "InvalidResource"@,
        ErrorCode::OperationFailed => "OperationFailed"@,
        ErrorCode::InvalidSessionKey => "InvalidSessionKey"@,
        ErrorCode::InvalidApiKey => "InvalidApiKey"@,
        ErrorCode::ServiceOffline => "ServiceOffline"@,
        ErrorCode::InvalidMethodSignature => "InvalidMethodSignature"@,
        ErrorCode::TemporaryError => "TemporaryError"@,
        ErrorCode::SuspendedApiKey => "SuspendedApiKey"@,
        ErrorCode::RateLimitExceeded => "RateLimitExceeded"@,
    }
}

impl ErrorCode {
    /// The code's name.
    pub fn name(&self) -> (r: &'static str)
        ensures
            r@ == code_name_spec(*self),
    {
        match self {
            ErrorCode::Unknown => "Unknown",
            ErrorCode::InvalidService => "InvalidService",
            ErrorCode::InvalidMethod => "InvalidMethod",
            ErrorCode::AuthenticationFailed => "AuthenticationFailed",
            ErrorCode::InvalidFormat => "InvalidFormat",
            ErrorCode::InvalidParameters => "InvalidParameters",
            ErrorCode::InvalidResource => "InvalidResource",
            ErrorCode::OperationFailed => "OperationFailed",
            ErrorCode::InvalidSessionKey => "InvalidSessionKey",
            ErrorCode::InvalidApiKey => "InvalidApiKey",
            ErrorCode::ServiceOffline => "ServiceOffline",
            ErrorCode::InvalidMethodSignature => "InvalidMethodSignature",
            ErrorCode::TemporaryError => "TemporaryError",
            ErrorCode::SuspendedApiKey => "SuspendedApiKey",
            ErrorCode::RateLimitExceeded => "RateLimitExceeded",
        }
    }
}

/// An error the remote API reported: its message, kept verbatim, and the
/// code it carried.
#[derive(Clone, Debug, PartialEq)]
pub struct LastFMError {
    pub message: String,
    pub error: ErrorCode,
}

impl LastFMError {
    /// A readable rendering: the code's name, a separator, the message.
    pub fn describe(&self) -> (r: String)
        ensures
            r@ == code_name_spec(self.error) + ": "@ + self.message@,
    {
        let mut s = String::from_str(self.error.name());
        s.append(": ");
        s.append(self.message.as_str());
        s
    }
}

/// A failed API call: either the transport failed (described in text) or
/// the remote API reported an error.
#[derive(Clone, Debug, PartialEq)]
pub enum Error {
    Transport(String),
    LastFM(LastFMError),
}

impl Error {
    /// A readable rendering of the failure.
    pub fn describe(&self) -> (r: String)
        ensures
            self matches Error::Transport(t) ==> r@ == "Error(Transport) { "@ + t@ + " }"@,
            self matches Error::LastFM(e) ==> r@ == "Error(LastFM) { "@ + code_name_spec(
                e.error,
            ) + ": "@ + e.message@ + " }"@,
    {
        match self {
            Error::Transport(t) => {
                let mut s = String::from_str("Error(Transport) { ");
                s.append(t.as_str());
                s.append(" }");
                s
            },
            Error::LastFM(e) => {
                let mut s = String::from_str("Error(LastFM) { ");
                let d = e.describe();
                s.append(d.as_str());
                s.append(" }");
                s
            },
        }
    }
}

} // verus!
