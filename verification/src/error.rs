use vstd::prelude::*;

verus! {

/// Stable, user-facing error codes.
#[derive(Debug, Clone, Copy, PartialEq, Eq, Structural)]
pub enum ResolveErrorCode {
    InvalidInput,
    UnsupportedInput,
    RemoteNotFound,
    RemoteRestricted,
    RemoteUnavailable,
    NetworkUnavailable,
    RemoteRejected,
    RateLimited,
    InvalidResponse,
    NoResources,
    Internal,
}

/// The snake_case name of a code, as exposed to callers.
pub open spec fn code_name(code: ResolveErrorCode) -> Seq<char> {
    match code {
        ResolveErrorCode::InvalidInput => "invalid_input"@,
        ResolveErrorCode::UnsupportedInput => "unsupported_input"@,
        ResolveErrorCode::RemoteNotFound => "remote_not_found"@,
        ResolveErrorCode::RemoteRestricted => "remote_restricted"@,
        ResolveErrorCode::RemoteUnavailable => "remote_unavailable"@,
        ResolveErrorCode::NetworkUnavailable => "network_unavailable"@,
        ResolveErrorCode::RemoteRejected => "remote_rejected"@,
        ResolveErrorCode::RateLimited => "rate_limited"@,
        ResolveErrorCode::InvalidResponse => "invalid_response"@,
        ResolveErrorCode::NoResources => "no_resources"@,
        ResolveErrorCode::Internal => "internal"@,
    }
}

impl ResolveErrorCode {
    pub fn as_str(self) -> (name: &'static str)
        ensures
            name@ == code_name(self),
    {
        match self {
            ResolveErrorCode::InvalidInput => "invalid_input",
            ResolveErrorCode::UnsupportedInput => "unsupported_input",
            ResolveErrorCode::RemoteNotFound => "remote_not_found",
            ResolveErrorCode::RemoteRestricted => "remote_restricted",
            ResolveErrorCode::RemoteUnavailable => "remote_unavailable",
            ResolveErrorCode::NetworkUnavailable => "network_unavailable",
            ResolveErrorCode::RemoteRejected => "remote_rejected",
            ResolveErrorCode::RateLimited => "rate_limited",
            ResolveErrorCode::InvalidResponse => "invalid_response",
            ResolveErrorCode::NoResources => "no_resources",
            ResolveErrorCode::Internal => "internal",
        }
    }
}

/// Errors reported by the resolver.
#[derive(Debug, Clone, Copy, PartialEq, Eq, Structural)]
pub enum ResolveError {
    InvalidInput,
    UnsupportedInput,
    RemoteNotFound,
    RemoteRestricted,
    RemoteUnavailable,
    NetworkUnavailable,
    RemoteRejected,
    RateLimited,
    InvalidResponse,
    NoResources,
    Internal,
}

/// The code of each error: one code per error, one error per code.
pub open spec fn error_code(error: ResolveError) -> ResolveErrorCode {
    match error {
        ResolveError::InvalidInput => ResolveErrorCode::InvalidInput,
        ResolveError::UnsupportedInput => ResolveErrorCode::UnsupportedInput,
        ResolveError::RemoteNotFound => ResolveErrorCode::RemoteNotFound,
        ResolveError::RemoteRestricted => ResolveErrorCode::RemoteRestricted,
        ResolveError::RemoteUnavailable => ResolveErrorCode::RemoteUnavailable,
        ResolveError::NetworkUnavailable => ResolveErrorCode::NetworkUnavailable,
        ResolveError::RemoteRejected => ResolveErrorCode::RemoteRejected,
        ResolveError::RateLimited => ResolveErrorCode::RateLimited,
        ResolveError::InvalidResponse => ResolveErrorCode::InvalidResponse,
        ResolveError::NoResources => ResolveErrorCode::NoResources,
        ResolveError::Internal => ResolveErrorCode::Internal,
    }
}

/// The neutral, human-readable message of each error.
pub open spec fn error_message(error: ResolveError) -> Seq<char> {
    match error {
        ResolveError::InvalidInput => "the input is not a valid link"@,
        ResolveError::UnsupportedInput => "the input is not supported"@,
        ResolveError::RemoteNotFound => "the source is no longer available"@,
        ResolveError::RemoteRestricted => "the source is restricted"@,
        ResolveError::RemoteUnavailable => "the remote source is unavailable"@,
        ResolveError::NetworkUnavailable => "the network is unavailable"@,
        ResolveError::RemoteRejected => "the remote source rejected the request"@,
        ResolveError::RateLimited => "too many requests"@,
        ResolveError::InvalidResponse => "the remote source returned an unexpected response"@,
        ResolveError::NoResources => "no usable resources were found"@,
        ResolveError::Internal => "an internal resolver error occurred"@,
    }
}

impl ResolveError {
    pub fn code(&self) -> (code: ResolveErrorCode)
        ensures
            code == error_code(*self),
    {
        match self {
            ResolveError::InvalidInput => ResolveErrorCode::InvalidInput,
            ResolveError::UnsupportedInput => ResolveErrorCode::UnsupportedInput,
            ResolveError::RemoteNotFound => ResolveErrorCode::RemoteNotFound,
            ResolveError::RemoteRestricted => ResolveErrorCode::RemoteRestricted,
            ResolveError::RemoteUnavailable => ResolveErrorCode::RemoteUnavailable,
            ResolveError::NetworkUnavailable => ResolveErrorCode::NetworkUnavailable,
            ResolveError::RemoteRejected => ResolveErrorCode::RemoteRejected,
            ResolveError::RateLimited => ResolveErrorCode::RateLimited,
            ResolveError::InvalidResponse => ResolveErrorCode::InvalidResponse,
            ResolveError::NoResources => ResolveErrorCode::NoResources,
            ResolveError::Internal => ResolveErrorCode::Internal,
        }
    }

    /// The message of this error, as a user-facing text.
    pub fn message(&self) -> (text: String)
        ensures
            text@ == error_message(*self),
    {
        let text: &str = match self {
            ResolveError::InvalidInput => "the input is not a valid link",
            ResolveError::UnsupportedInput => "the input is not supported",
            ResolveError::RemoteNotFound => "the source is no longer available",
            ResolveError::RemoteRestricted => "the source is restricted",
            ResolveError::RemoteUnavailable => "the remote source is unavailable",
            ResolveError::NetworkUnavailable => "the network is unavailable",
            ResolveError::RemoteRejected => "the remote source rejected the request",
            ResolveError::RateLimited => "too many requests",
            ResolveError::InvalidResponse => "the remote source returned an unexpected response",
            ResolveError::NoResources => "no usable resources were found",
            ResolveError::Internal => "an internal resolver error occurred",
        };
        text.to_owned()
    }
}

/// Each error has its own code, and each code its own name: the mapping from
/// errors to code names loses nothing.
pub proof fn lemma_codes_are_distinct(a: ResolveError, b: ResolveError)
    ensures
        a != b ==> error_code(a) != error_code(b),
        a != b ==> code_name(error_code(a)) != code_name(error_code(b)),
{
    if a != b {
        reveal_strlit("invalid_input");
        reveal_strlit("unsupported_input");
        reveal_strlit("remote_not_found");
        reveal_strlit("remote_restricted");
        reveal_strlit("remote_unavailable");
        reveal_strlit("network_unavailable");
        reveal_strlit("remote_rejected");
        reveal_strlit("rate_limited");
        reveal_strlit("invalid_response");
        reveal_strlit("no_resources");
        reveal_strlit("internal");
        assert(code_name(error_code(a)) != code_name(error_code(b))) by {
            let x = code_name(error_code(a));
            let y = code_name(error_code(b));
            if x == y {
                assert(x.len() == y.len());
                assert(x[0] == y[0]);
                assert(x[x.len() - 1] == y[y.len() - 1]);
                assert(x[7] == y[7]);
            }
        }
    }
}

} // verus!
