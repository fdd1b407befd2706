//! Errors of the Datadog API client and their process exit codes.

use vstd::prelude::*;

verus! {

#[verifier::external_type_specification]
#[verifier::external_body]
pub struct ExHttpError(reqwest::Error);

#[verifier::external_type_specification]
#[verifier::external_body]
pub struct ExUrlParseError(url::ParseError);

#[verifier::external_type_specification]
#[verifier::external_body]
pub struct ExJsonError(serde_json::Error);

/// What can go wrong talking to the Datadog API.
#[derive(Debug)]
pub enum ApiError {
    /// 401 or 403: the keys were refused.
    Auth,
    /// 404, with the response body.
    NotFound(String),
    /// 429 after the retries, with the `Retry-After` hint (0 when absent).
    RateLimited { retry_after_secs: u64 },
    /// Any other failing status, with the response body.
    Upstream { status: u16, body: String },
    /// The request could not be sent or its body not read.
    Network(reqwest::Error),
    /// A URL could not be built.
    Url(url::ParseError),
    /// A response body was not the expected JSON.
    Decode(serde_json::Error),
}

/// The exit code for each kind of error (README: `2` auth, `3` not found,
/// `4` rate limited, `5` upstream, `6` network, `1` anything else).
pub open spec fn exit_code_of(e: ApiError) -> int {
    match e {
        ApiError::Auth => 2,
        ApiError::NotFound(_) => 3,
        ApiError::RateLimited { .. } => 4,
        ApiError::Upstream { .. } => 5,
        ApiError::Network(_) => 6,
        _ => 1,
    }
}

impl ApiError {
    /// Exit code mapping matching the specification.
    pub fn exit_code(&self) -> (r: i32)
        ensures
            r == exit_code_of(*self),
            1 <= r <= 6,
    {
        match self {
            ApiError::Auth => 2,
            ApiError::NotFound(_) => 3,
            ApiError::RateLimited { .. } => 4,
            ApiError::Upstream { .. } => 5,
            ApiError::Network(_) => 6,
            _ => 1,
        }
    }
}

/// The exit code of a failed run: the API error's code when the failure is
/// an API error, `1` (usage or parsing) otherwise.
pub fn failure_exit_code(e: Option<&ApiError>) -> (r: i32)
    ensures
        e matches Some(x) ==> r == exit_code_of(*x),
        e is None ==> r == 1,
{
    match e {
        Some(x) => x.exit_code(),
        None => 1,
    }
}

} // verus!
