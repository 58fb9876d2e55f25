//! Errors of LLM operations, and how HTTP failures map onto them.

use vstd::prelude::*;
use crate::text::{concat, decimal, u64_to_string, owned};
use crate::errors::io_error_text;

verus! {

#[verifier::external_type_specification]
#[verifier::external_body]
pub struct ExJsonError(serde_json::Error);

/// Error of an LLM operation.
#[derive(Debug, Clone)]
pub enum LlmError {
    /// Network or connection failure.
    Connection(String),
    /// API error (authentication, server error, ...).
    Api { status: u16, message: String },
    /// Model not found.
    ModelNotFound(String),
    /// Provider not available.
    ProviderUnavailable(String),
    /// The request timed out.
    Timeout,
    /// Invalid request (bad parameters).
    InvalidRequest(String),
    /// Rate limited, with the advised wait in seconds when known.
    RateLimited { retry_after: Option<u64> },
    /// Internal error.
    Internal(String),
}

/// What an HTTP failure carries: the status code and response body of a
/// status error (the body absent when it could not be read), or the text of
/// a transport error.
#[derive(Debug, Clone)]
pub enum HttpFailure {
    /// The server answered with an error status.
    Status { code: u16, body: Option<String> },
    /// The request could not be made or the answer not received.
    Transport(String),
}

/// The display text of an LLM error.
pub open spec fn error_text(e: LlmError) -> Seq<char> {
    match e {
        LlmError::Connection(m) => "Connection error: "@ + m@,
        LlmError::Api { status, message } => "API error ("@ + decimal(status as nat) + "): "@ + message@,
        LlmError::ModelNotFound(m) => "Model not found: "@ + m@,
        LlmError::ProviderUnavailable(p) => "Provider unavailable: "@ + p@,
        LlmError::Timeout => "Request timed out"@,
        LlmError::InvalidRequest(m) => "Invalid request: "@ + m@,
        LlmError::RateLimited { retry_after } => match retry_after {
            Some(s) => "Rate limited, retry after "@ + decimal(s as nat) + " seconds"@,
            None => "Rate limited"@,
        },
        LlmError::Internal(m) => "Internal error: "@ + m@,
    }
}

/// The message an HTTP failure's error carries, where it is an API error.
pub open spec fn failure_message(f: HttpFailure) -> Seq<char> {
    match f {
        HttpFailure::Status { code, body } =>
            if code == 401 || code == 403 {
                "Authentication failed"@
            } else {
                match body {
                    Some(b) => b@,
                    None => "Unknown error"@,
                }
            },
        HttpFailure::Transport(_) => Seq::empty(),
    }
}

/// The text of a JSON error (its `Display` form).
#[verifier::external_body]
fn json_error_text(err: &serde_json::Error) -> String {
    format!("{}", err)
}

impl LlmError {
    /// The display text of the error.
    pub fn display_string(&self) -> (s: String)
        ensures
            s@ == error_text(*self),
    {
        match self {
            LlmError::Connection(m) => concat("Connection error: ", m.as_str()),
            LlmError::Api { status, message } => {
                let code = u64_to_string(*status as u64);
                let head = concat("API error (", code.as_str());
                let head = concat(head.as_str(), "): ");
                concat(head.as_str(), message.as_str())
            },
            LlmError::ModelNotFound(m) => concat("Model not found: ", m.as_str()),
            LlmError::ProviderUnavailable(p) => concat("Provider unavailable: ", p.as_str()),
            LlmError::Timeout => owned("Request timed out"),
            LlmError::InvalidRequest(m) => concat("Invalid request: ", m.as_str()),
            LlmError::RateLimited { retry_after } => match retry_after {
                Some(secs) => {
                    let n = u64_to_string(*secs);
                    let head = concat("Rate limited, retry after ", n.as_str());
                    concat(head.as_str(), " seconds")
                },
                None => owned("Rate limited"),
            },
            LlmError::Internal(m) => concat("Internal error: ", m.as_str()),
        }
    }

    /// The error an HTTP failure maps to.
    pub fn from_http_failure(f: HttpFailure) -> (e: LlmError)
        ensures
            match f {
                HttpFailure::Status { code, body } =>
                    if code == 429 {
                        e == (LlmError::RateLimited { retry_after: None })
                    } else {
                        e matches LlmError::Api { status, message }
                            && status == code && message@ == failure_message(f)
                    },
                HttpFailure::Transport(t) => e == LlmError::Connection(t),
            },
    {
        match f {
            HttpFailure::Status { code, body } => {
                if code == 429 {
                    LlmError::RateLimited { retry_after: None }
                } else if code == 401 || code == 403 {
                    LlmError::Api { status: code, message: owned("Authentication failed") }
                } else {
                    let message = match body {
                        Some(b) => b,
                        None => owned("Unknown error"),
                    };
                    LlmError::Api { status: code, message }
                }
            },
            HttpFailure::Transport(t) => LlmError::Connection(t),
        }
    }

    /// An internal error carrying the text of an I/O error.
    pub fn from_io_error(err: &std::io::Error) -> (e: LlmError)
        ensures
            e is Internal,
    {
        LlmError::Internal(io_error_text(err))
    }

    /// An internal error carrying the text of a JSON error, after
    /// `JSON error: `.
    pub fn from_json_error(err: &serde_json::Error) -> (e: LlmError)
        ensures
            e matches LlmError::Internal(m) && "JSON error: "@.is_prefix_of(m@),
    {
        let t = json_error_text(err);
        let m = concat("JSON error: ", t.as_str());
        assert("JSON error: "@.is_prefix_of(m@)) by {
            assert(m@.subrange(0, "JSON error: "@.len() as int) =~= "JSON error: "@);
        }
        LlmError::Internal(m)
    }
}

impl From<std::io::Error> for LlmError {
    fn from(err: std::io::Error) -> (e: Self) {
        Self::from_io_error(&err)
    }
}

/// Conversion through `From` states nothing: the text comes from the I/O
/// error. `LlmError::from_io_error` states what holds.
impl vstd::std_specs::convert::FromSpecImpl<std::io::Error> for LlmError {
    open spec fn obeys_from_spec() -> bool {
        false
    }

    open spec fn from_spec(v: std::io::Error) -> LlmError {
        arbitrary()
    }
}

impl From<serde_json::Error> for LlmError {
    fn from(err: serde_json::Error) -> (e: Self) {
        Self::from_json_error(&err)
    }
}

/// Conversion through `From` states nothing: the text comes from the JSON
/// error. `LlmError::from_json_error` states what holds.
impl vstd::std_specs::convert::FromSpecImpl<serde_json::Error> for LlmError {
    open spec fn obeys_from_spec() -> bool {
        false
    }

    open spec fn from_spec(v: serde_json::Error) -> LlmError {
        arbitrary()
    }
}

} // verus!
