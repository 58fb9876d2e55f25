//! The panels of the IDE: their state and the edits and moves they support.

pub mod editor;
pub mod input;
pub mod file_tree;
pub mod agents;
pub mod output;
pub mod chat;
pub mod registry;
