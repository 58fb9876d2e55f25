//! The central application state: input mode, focus, quitting and the
//! status bar message.

use vstd::prelude::*;
use super::focus::{FocusState, PanelId};
use super::input_mode::InputMode;
use crate::path::{file_name_of, path_file_name};
use crate::text::owned;

verus! {

/// Message severity level.
#[derive(Debug, Clone, Copy, PartialEq, Structural)]
pub enum MessageLevel {
    Info,
    Warning,
    Error,
}

/// Status bar message.
pub struct StatusMessage {
    pub text: String,
    pub level: MessageLevel,
}

/// Central application state (panel state lives in the panels).
pub struct AppState {
    /// Current input mode.
    pub input_mode: InputMode,
    /// Focus management.
    pub focus: FocusState,
    /// The application should quit.
    pub should_quit: bool,
    /// Status bar message, if any.
    pub status_message: Option<StatusMessage>,
    /// Current working directory.
    pub cwd: String,
}

impl AppState {
    /// A fresh state in the working directory `cwd`.
    pub fn with_cwd(cwd: String) -> (s: Self)
        ensures
            s.input_mode is Normal,
            s.focus.wf(),
            s.focus@.current == PanelId(2),
            !s.should_quit,
            s.status_message is None,
            s.cwd == cwd,
    {
        AppState {
            input_mode: InputMode::Normal,
            focus: FocusState::new(),
            should_quit: false,
            status_message: None,
            cwd,
        }
    }

    /// Request quitting.
    pub fn quit(&mut self)
        ensures
            final(self).should_quit,
            final(self).cwd == old(self).cwd,
            final(self).focus == old(self).focus,
            final(self).input_mode == old(self).input_mode,
            final(self).status_message == old(self).status_message,
    {
        self.should_quit = true;
    }

    /// Set the status message.
    pub fn set_status(&mut self, text: String, level: MessageLevel)
        ensures
            final(self).status_message matches Some(m) && m.text == text && m.level == level,
            final(self).should_quit == old(self).should_quit,
            final(self).cwd == old(self).cwd,
            final(self).focus == old(self).focus,
            final(self).input_mode == old(self).input_mode,
    {
        self.status_message = Some(StatusMessage { text, level });
    }

    /// Clear the status message.
    pub fn clear_status(&mut self)
        ensures
            final(self).status_message is None,
            final(self).should_quit == old(self).should_quit,
            final(self).cwd == old(self).cwd,
            final(self).focus == old(self).focus,
            final(self).input_mode == old(self).input_mode,
    {
        self.status_message = None;
    }

    /// Set an info status.
    pub fn info(&mut self, text: String)
        ensures
            final(self).status_message matches Some(m) && m.text == text && m.level == MessageLevel::Info,
            final(self).should_quit == old(self).should_quit,
            final(self).cwd == old(self).cwd,
            final(self).focus == old(self).focus,
            final(self).input_mode == old(self).input_mode,
    {
        self.set_status(text, MessageLevel::Info);
    }

    /// Set an error status.
    pub fn error(&mut self, text: String)
        ensures
            final(self).status_message matches Some(m) && m.text == text && m.level == MessageLevel::Error,
            final(self).should_quit == old(self).should_quit,
            final(self).cwd == old(self).cwd,
            final(self).focus == old(self).focus,
            final(self).input_mode == old(self).input_mode,
    {
        self.set_status(text, MessageLevel::Error);
    }

    /// Name for display: the working directory's name, or `axiom`.
    pub fn workspace_name(&self) -> (s: String)
        ensures
            match path_file_name(self.cwd@) {
                Some(n) => s@ == n,
                None => s@ == "axiom"@,
            },
    {
        match file_name_of(self.cwd.as_str()) {
            Some(n) => n,
            None => owned("axiom"),
        }
    }

    /// Name of the input mode for the status bar.
    pub fn input_mode_name(&self) -> (s: &'static str)
        ensures
            s@ == match self.input_mode {
                InputMode::Normal => "NORMAL"@,
                InputMode::Insert => "INSERT"@,
                InputMode::Command { .. } => "COMMAND"@,
                InputMode::Search { .. } => "SEARCH"@,
                InputMode::Modal { .. } => "MODAL"@,
            },
    {
        self.input_mode.mode_name()
    }
}

} // verus!
