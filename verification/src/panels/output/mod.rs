//! The output area: what it shows of a file or an agent, and how it
//! scrolls.

pub mod agent_viewer;
pub mod file_viewer;
pub mod panel;
