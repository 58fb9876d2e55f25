//! Typed errors of the application: I/O, PTY and LLM failures.

use vstd::prelude::*;
use crate::text::{concat, decimal, u64_to_string};

verus! {

#[verifier::external_type_specification]
#[verifier::external_body]
pub struct ExIoError(std::io::Error);

/// The text of an I/O error (its `Display` form).
#[verifier::external_body]
pub(crate) fn io_error_text(err: &std::io::Error) -> String {
    format!("{}", err)
}

/// Top-level application error.
#[derive(Debug)]
pub enum AxiomError {
    /// An I/O failure.
    Io(std::io::Error),
    /// A PTY failure.
    Pty(PtyError),
    /// An LLM provider failure.
    Llm(LlmError),
    /// A configuration problem.
    Config(String),
    /// A channel could not send.
    ChannelSend,
    /// A channel could not receive.
    ChannelRecv,
}

/// PTY-specific errors.
#[derive(Debug)]
pub enum PtyError {
    /// The PTY could not be created.
    Create(String),
    /// The shell could not be spawned.
    Spawn(String),
    /// The PTY could not be resized.
    Resize(String),
    /// Writing to the PTY failed.
    Write(String),
    /// Reading from the PTY failed.
    Read(String),
    /// An I/O failure on the PTY.
    Io(std::io::Error),
}

/// LLM provider errors.
#[derive(Debug)]
pub enum LlmError {
    /// The provider is not configured.
    NotConfigured(String),
    /// A network failure.
    Network(String),
    /// The API answered with an error status.
    Api { status: u16, message: String },
    /// The response stream failed.
    Stream(String),
    /// The response could not be parsed.
    Parse(String),
    /// The provider is not available.
    Unavailable(String),
}

/// The display text of an LLM provider error.
pub open spec fn llm_error_text(e: LlmError) -> Seq<char> {
    match e {
        LlmError::NotConfigured(m) => "Provider not configured: "@ + m@,
        LlmError::Network(m) => "Network error: "@ + m@,
        LlmError::Api { status, message } => "API error ("@ + decimal(status as nat) + "): "@ + message@,
        LlmError::Stream(m) => "Streaming error: "@ + m@,
        LlmError::Parse(m) => "Parse error: "@ + m@,
        LlmError::Unavailable(m) => "Provider not available: "@ + m@,
    }
}

/// Whether `t` is the display text of a PTY error: exact for the variants
/// that carry a message, the prefix for an I/O failure (whose text comes
/// from the I/O error itself).
pub open spec fn is_pty_error_text(e: PtyError, t: Seq<char>) -> bool {
    match e {
        PtyError::Create(m) => t == "Failed to create PTY: "@ + m@,
        PtyError::Spawn(m) => t == "Failed to spawn shell: "@ + m@,
        PtyError::Resize(m) => t == "Failed to resize PTY: "@ + m@,
        PtyError::Write(m) => t == "PTY write error: "@ + m@,
        PtyError::Read(m) => t == "PTY read error: "@ + m@,
        PtyError::Io(_) => "PTY IO error: "@.is_prefix_of(t),
    }
}

impl LlmError {
    /// The display text of the error.
    pub fn display_string(&self) -> (s: String)
        ensures
            s@ == llm_error_text(*self),
    {
        match self {
            LlmError::NotConfigured(m) => concat("Provider not configured: ", m.as_str()),
            LlmError::Network(m) => concat("Network error: ", m.as_str()),
            LlmError::Api { status, message } => {
                let code = u64_to_string(*status as u64);
                let head = concat("API error (", code.as_str());
                let head = concat(head.as_str(), "): ");
                concat(head.as_str(), message.as_str())
            },
            LlmError::Stream(m) => concat("Streaming error: ", m.as_str()),
            LlmError::Parse(m) => concat("Parse error: ", m.as_str()),
            LlmError::Unavailable(m) => concat("Provider not available: ", m.as_str()),
        }
    }
}

impl PtyError {
    /// The display text of the error.
    pub fn display_string(&self) -> (s: String)
        ensures
            is_pty_error_text(*self, s@),
    {
        match self {
            PtyError::Create(m) => concat("Failed to create PTY: ", m.as_str()),
            PtyError::Spawn(m) => concat("Failed to spawn shell: ", m.as_str()),
            PtyError::Resize(m) => concat("Failed to resize PTY: ", m.as_str()),
            PtyError::Write(m) => concat("PTY write error: ", m.as_str()),
            PtyError::Read(m) => concat("PTY read error: ", m.as_str()),
            PtyError::Io(e) => {
                let t = io_error_text(e);
                let s = concat("PTY IO error: ", t.as_str());
                assert("PTY IO error: "@.is_prefix_of(s@)) by {
                    assert(s@.subrange(0, "PTY IO error: "@.len() as int) =~= "PTY IO error: "@);
                }
                s
            },
        }
    }

    /// Whether the error wraps an underlying error (the I/O variant).
    pub fn has_source(&self) -> (b: bool)
        ensures
            b == (self is Io),
    {
        matches!(self, PtyError::Io(_))
    }
}

impl AxiomError {
    /// The display text of the error.
    pub fn display_string(&self) -> (s: String)
        ensures
            match *self {
                AxiomError::Io(_) => "IO error: "@.is_prefix_of(s@),
                AxiomError::Pty(e) => exists|t: Seq<char>| s@ == "PTY error: "@ + t && is_pty_error_text(e, t),
                AxiomError::Llm(e) => s@ == "LLM error: "@ + llm_error_text(e),
                AxiomError::Config(m) => s@ == "Configuration error: "@ + m@,
                AxiomError::ChannelSend => s@ == "Channel send error"@,
                AxiomError::ChannelRecv => s@ == "Channel receive error"@,
            },
    {
        match self {
            AxiomError::Io(e) => {
                let t = io_error_text(e);
                let s = concat("IO error: ", t.as_str());
                assert("IO error: "@.is_prefix_of(s@)) by {
                    assert(s@.subrange(0, "IO error: "@.len() as int) =~= "IO error: "@);
                }
                s
            },
            AxiomError::Pty(e) => {
                let t = e.display_string();
                concat("PTY error: ", t.as_str())
            },
            AxiomError::Llm(e) => {
                let t = e.display_string();
                concat("LLM error: ", t.as_str())
            },
            AxiomError::Config(m) => concat("Configuration error: ", m.as_str()),
            AxiomError::ChannelSend => "Channel send error".to_owned(),
            AxiomError::ChannelRecv => "Channel receive error".to_owned(),
        }
    }

    /// Whether the error wraps an underlying error (the I/O, PTY and LLM
    /// variants).
    pub fn has_source(&self) -> (b: bool)
        ensures
            b == (self is Io || self is Pty || self is Llm),
    {
        matches!(self, AxiomError::Io(_) | AxiomError::Pty(_) | AxiomError::Llm(_))
    }
}

impl From<std::io::Error> for AxiomError {
    fn from(err: std::io::Error) -> (r: Self) {
        AxiomError::Io(err)
    }
}

impl vstd::std_specs::convert::FromSpecImpl<std::io::Error> for AxiomError {
    open spec fn obeys_from_spec() -> bool {
        true
    }

    open spec fn from_spec(v: std::io::Error) -> AxiomError {
        AxiomError::Io(v)
    }
}

impl From<PtyError> for AxiomError {
    fn from(err: PtyError) -> (r: Self) {
        AxiomError::Pty(err)
    }
}

impl vstd::std_specs::convert::FromSpecImpl<PtyError> for AxiomError {
    open spec fn obeys_from_spec() -> bool {
        true
    }

    open spec fn from_spec(v: PtyError) -> AxiomError {
        AxiomError::Pty(v)
    }
}

impl From<LlmError> for AxiomError {
    fn from(err: LlmError) -> (r: Self) {
        AxiomError::Llm(err)
    }
}

impl vstd::std_specs::convert::FromSpecImpl<LlmError> for AxiomError {
    open spec fn obeys_from_spec() -> bool {
        true
    }

    open spec fn from_spec(v: LlmError) -> AxiomError {
        AxiomError::Llm(v)
    }
}

impl From<std::io::Error> for PtyError {
    fn from(err: std::io::Error) -> (r: Self) {
        PtyError::Io(err)
    }
}

impl vstd::std_specs::convert::FromSpecImpl<std::io::Error> for PtyError {
    open spec fn obeys_from_spec() -> bool {
        true
    }

    open spec fn from_spec(v: std::io::Error) -> PtyError {
        PtyError::Io(v)
    }
}

} // verus!
