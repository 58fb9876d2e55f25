//! Status and type of the agents in the system.

use vstd::prelude::*;
use crate::text::concat;

verus! {

/// Agent execution status.
#[derive(Debug, Clone, PartialEq)]
pub enum AgentStatus {
    /// Waiting to be executed.
    Pending,
    /// Currently running.
    Running,
    /// Completed successfully.
    Completed,
    /// Ended with an error.
    Error(String),
    /// Cancelled by the user.
    Cancelled,
    /// Idle, waiting for the next input (the conductor).
    Idle,
}

impl AgentStatus {
    /// Completed, errored or cancelled.
    pub open spec fn is_finished(self) -> bool {
        self is Completed || self is Error || self is Cancelled
    }

    /// In a terminal state: completed, errored or cancelled.
    pub fn is_terminal(&self) -> (b: bool)
        ensures
            b == self.is_finished(),
    {
        matches!(self, AgentStatus::Completed | AgentStatus::Error(_) | AgentStatus::Cancelled)
    }

    /// Currently running.
    pub fn is_running(&self) -> (b: bool)
        ensures
            b == self is Running,
    {
        matches!(self, AgentStatus::Running)
    }

    /// A short status indicator for display.
    pub fn indicator(&self) -> (s: &'static str)
        ensures
            s@ == match self {
                AgentStatus::Pending => "⏳"@,
                AgentStatus::Running => "⚡"@,
                AgentStatus::Completed => "✓"@,
                AgentStatus::Error(_) => "✗"@,
                AgentStatus::Cancelled => "⊘"@,
                AgentStatus::Idle => "💤"@,
            },
    {
        match self {
            AgentStatus::Pending => "⏳",
            AgentStatus::Running => "⚡",
            AgentStatus::Completed => "✓",
            AgentStatus::Error(_) => "✗",
            AgentStatus::Cancelled => "⊘",
            AgentStatus::Idle => "💤",
        }
    }

    /// Display form of the status.
    pub fn display_string(&self) -> (s: String)
        ensures
            s@ == status_text(*self),
    {
        match self {
            AgentStatus::Pending => "Pending".to_owned(),
            AgentStatus::Running => "Running".to_owned(),
            AgentStatus::Completed => "Completed".to_owned(),
            AgentStatus::Error(e) => concat("Error: ", e.as_str()),
            AgentStatus::Cancelled => "Cancelled".to_owned(),
            AgentStatus::Idle => "Idle".to_owned(),
        }
    }
}

/// The display text of a status.
pub open spec fn status_text(s: AgentStatus) -> Seq<char> {
    match s {
        AgentStatus::Pending => "Pending"@,
        AgentStatus::Running => "Running"@,
        AgentStatus::Completed => "Completed"@,
        AgentStatus::Error(e) => "Error: "@ + e@,
        AgentStatus::Cancelled => "Cancelled"@,
        AgentStatus::Idle => "Idle"@,
    }
}

/// The icon of an agent type.
pub open spec fn type_icon(t: AgentType) -> Seq<char> {
    match t {
        AgentType::Conductor => "🎯"@,
        AgentType::Coder => "💻"@,
        AgentType::Shell => "🖥️"@,
        AgentType::FileOps => "📁"@,
        AgentType::Search => "🔍"@,
        AgentType::Custom(_) => "🔧"@,
        AgentType::CliAgent { .. } => "🤖"@,
    }
}

/// Type of agent (what tool or capability it represents).
#[derive(Debug, Clone, PartialEq)]
pub enum AgentType {
    /// The conductor agent that routes user input.
    Conductor,
    /// Code generation or modification.
    Coder,
    /// Shell command execution.
    Shell,
    /// File system operations.
    FileOps,
    /// Search and retrieval.
    Search,
    /// A custom tool with a name.
    Custom(String),
    /// An external command-line agent run in a terminal.
    CliAgent {
        /// The agent configuration ID.
        config_id: String,
    },
}

impl AgentType {
    /// A short label for the agent type.
    pub fn label(&self) -> (s: &str)
        ensures
            s@ == match self {
                AgentType::Conductor => "Conductor"@,
                AgentType::Coder => "Coder"@,
                AgentType::Shell => "Shell"@,
                AgentType::FileOps => "FileOps"@,
                AgentType::Search => "Search"@,
                AgentType::Custom(name) => name@,
                AgentType::CliAgent { config_id } => config_id@,
            },
    {
        match self {
            AgentType::Conductor => "Conductor",
            AgentType::Coder => "Coder",
            AgentType::Shell => "Shell",
            AgentType::FileOps => "FileOps",
            AgentType::Search => "Search",
            AgentType::Custom(name) => name.as_str(),
            AgentType::CliAgent { config_id } => config_id.as_str(),
        }
    }

    /// An icon for the agent type.
    pub fn icon(&self) -> (s: &'static str)
        ensures
            s@ == type_icon(*self),
    {
        match self {
            AgentType::Conductor => "🎯",
            AgentType::Coder => "💻",
            AgentType::Shell => "🖥️",
            AgentType::FileOps => "📁",
            AgentType::Search => "🔍",
            AgentType::Custom(_) => "🔧",
            AgentType::CliAgent { .. } => "🤖",
        }
    }

    /// Whether this is a CLI agent.
    pub fn is_cli_agent(&self) -> (b: bool)
        ensures
            b == self is CliAgent,
    {
        matches!(self, AgentType::CliAgent { .. })
    }

    /// The CLI agent configuration ID, for a CLI agent.
    pub fn cli_agent_config_id(&self) -> (r: Option<&str>)
        ensures
            match self {
                AgentType::CliAgent { config_id } => r is Some && r->0@ == config_id@,
                _ => r is None,
            },
    {
        match self {
            AgentType::CliAgent { config_id } => Some(config_id.as_str()),
            _ => None,
        }
    }

    /// Display form: the label.
    pub fn display_string(&self) -> (s: String)
        ensures
            s@ == match self {
                AgentType::Conductor => "Conductor"@,
                AgentType::Coder => "Coder"@,
                AgentType::Shell => "Shell"@,
                AgentType::FileOps => "FileOps"@,
                AgentType::Search => "Search"@,
                AgentType::Custom(name) => name@,
                AgentType::CliAgent { config_id } => config_id@,
            },
    {
        self.label().to_owned()
    }
}

} // verus!
