//! The state machines, text buffers and parsers behind a terminal IDE with
//! AI integration, each with its contract.

pub mod text;
pub mod path;
pub mod state;
pub mod panels;
pub mod agents;
pub mod clock;
pub mod errors;
pub mod llm;
pub mod ui;
pub mod keys;
pub mod dispatch;
pub mod terminal;
pub mod config;
pub mod files;
