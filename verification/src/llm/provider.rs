//! What a provider can do, and its status.

use vstd::prelude::*;

verus! {

/// Provider capability flags and limits.
#[derive(Debug, Clone)]
pub struct ProviderCapabilities {
    /// Supports streaming responses.
    pub streaming: bool,
    /// Supports function/tool calling.
    pub function_calling: bool,
    /// Supports image input.
    pub vision: bool,
    /// Supports file attachments in context.
    pub file_context: bool,
    /// Maximum context window (tokens).
    pub max_context: usize,
    /// Maximum output tokens.
    pub max_output: usize,
}

impl Default for ProviderCapabilities {
    /// No capability, and zero limits.
    fn default() -> (c: Self)
        ensures
            !c.streaming,
            !c.function_calling,
            !c.vision,
            !c.file_context,
            c.max_context == 0,
            c.max_output == 0,
    {
        ProviderCapabilities {
            streaming: false,
            function_calling: false,
            vision: false,
            file_context: false,
            max_context: 0,
            max_output: 0,
        }
    }
}

/// Provider status.
#[derive(Debug, Clone, PartialEq, Eq)]
pub enum ProviderStatus {
    /// Ready to accept requests.
    Ready,
    /// Processing a request.
    Busy,
    /// Not available (no API key, server down, ...).
    Unavailable(String),
    /// Rate limited.
    RateLimited,
}

impl ProviderStatus {
    /// Ready to accept requests.
    pub fn is_ready(&self) -> (b: bool)
        ensures
            b == (self is Ready),
    {
        matches!(self, ProviderStatus::Ready)
    }
}

} // verus!
