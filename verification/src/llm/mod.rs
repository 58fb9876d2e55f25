//! LLM integration: errors, chat messages, provider status and the
//! provider summaries shown to the user.

pub mod error;
pub mod message;
pub mod provider;
pub mod registry;
pub mod ollama;
pub mod gemini;
pub mod json;
pub mod anthropic;
pub mod setup;
