//! The input mode state machine.

use vstd::prelude::*;
use crate::text::{owned, same_text};

verus! {

/// Input mode.
#[derive(Debug, Clone, PartialEq)]
pub enum InputMode {
    /// Navigation: arrow keys move between panels.
    Normal,
    /// Text insertion into the active text field.
    Insert,
    /// The command palette is open.
    Command { query: String },
    /// Search, forward or backward.
    Search { query: String, forward: bool },
    /// A modal dialog is open (settings, confirmation, ...).
    Modal { name: String },
}

impl Default for InputMode {
    fn default() -> (m: Self)
        ensures
            m is Normal,
    {
        InputMode::Normal
    }
}

impl InputMode {
    /// In a text editing mode.
    pub fn is_editing(&self) -> (b: bool)
        ensures
            b == (self is Insert || self is Command || self is Search),
    {
        matches!(self, InputMode::Insert | InputMode::Command { .. } | InputMode::Search { .. })
    }

    /// A modal or overlay is open.
    pub fn is_modal(&self) -> (b: bool)
        ensures
            b == (self is Command || self is Search || self is Modal),
    {
        matches!(self, InputMode::Command { .. } | InputMode::Search { .. } | InputMode::Modal { .. })
    }

    /// The query, in command or search mode.
    pub fn query(&self) -> (q: Option<&str>)
        ensures
            match self {
                InputMode::Command { query } => q is Some && q->0@ == query@,
                InputMode::Search { query, .. } => q is Some && q->0@ == query@,
                _ => q is None,
            },
    {
        match self {
            InputMode::Command { query } => Some(query.as_str()),
            InputMode::Search { query, .. } => Some(query.as_str()),
            _ => None,
        }
    }

    /// Go to normal mode.
    pub fn to_normal(&mut self)
        ensures
            *final(self) is Normal,
    {
        *self = InputMode::Normal;
    }

    /// Go to insert mode.
    pub fn to_insert(&mut self)
        ensures
            *final(self) is Insert,
    {
        *self = InputMode::Insert;
    }

    /// Open the command palette with an empty query.
    pub fn open_command(&mut self)
        ensures
            *final(self) matches InputMode::Command { query } && query@ == Seq::<char>::empty(),
    {
        *self = InputMode::Command { query: String::new() };
    }

    /// Open search with an empty query.
    pub fn open_search(&mut self, forward: bool)
        ensures
            *final(self) matches InputMode::Search { query, forward: f } && query@ == Seq::<char>::empty() && f == forward,
    {
        *self = InputMode::Search { query: String::new(), forward };
    }

    /// Open a named modal.
    pub fn open_modal(&mut self, name: &str)
        ensures
            *final(self) matches InputMode::Modal { name: n } && n@ == name@,
    {
        *self = InputMode::Modal { name: owned(name) };
    }

    /// Whether the modal `modal_name` is open.
    pub fn is_modal_open(&self, modal_name: &str) -> (b: bool)
        ensures
            b == (self matches InputMode::Modal { name } && name@ == modal_name@),
    {
        match self {
            InputMode::Modal { name } => same_text(name.as_str(), modal_name),
            _ => false,
        }
    }

    /// Name of the mode for the status bar.
    pub fn mode_name(&self) -> (s: &'static str)
        ensures
            s@ == match self {
                InputMode::Normal => "NORMAL"@,
                InputMode::Insert => "INSERT"@,
                InputMode::Command { .. } => "COMMAND"@,
                InputMode::Search { .. } => "SEARCH"@,
                InputMode::Modal { .. } => "MODAL"@,
            },
    {
        match self {
            InputMode::Normal => "NORMAL",
            InputMode::Insert => "INSERT",
            InputMode::Command { .. } => "COMMAND",
            InputMode::Search { .. } => "SEARCH",
            InputMode::Modal { .. } => "MODAL",
        }
    }
}

} // verus!
