//! What the output area displays, and the identifiers of spawned agents.

use vstd::prelude::*;
use crate::text::{decimal, u64_to_string, concat};

verus! {

/// Unique identifier for spawned agents.
#[derive(Debug, Clone, Copy, PartialEq, Eq, Hash, Structural)]
pub struct AgentId(pub u64);

impl AgentId {
    /// Create a new AgentId from a raw value.
    pub fn new(id: u64) -> (r: Self)
        ensures
            r.0 == id,
    {
        AgentId(id)
    }

    /// The raw ID value.
    pub fn value(&self) -> (v: u64)
        ensures
            v == self.0,
    {
        self.0
    }

    /// Display form: `agent-<n>`.
    pub fn display_string(&self) -> (s: String)
        ensures
            s@ == "agent-"@ + decimal(self.0 as nat),
    {
        let n = u64_to_string(self.0);
        concat("agent-", n.as_str())
    }
}

/// What is currently displayed in the output area.
#[derive(Debug, Clone, PartialEq)]
pub enum OutputContext {
    /// Viewing a file from the file tree.
    File { path: String },
    /// Viewing output from a specific agent.
    Agent { agent_id: AgentId },
    /// Nothing selected.
    Empty,
}

impl Default for OutputContext {
    fn default() -> (c: Self)
        ensures
            c is Empty,
    {
        OutputContext::Empty
    }
}

impl OutputContext {
    /// Showing a file.
    pub fn is_file(&self) -> (b: bool)
        ensures
            b == (self is File),
    {
        matches!(self, OutputContext::File { .. })
    }

    /// Showing an agent.
    pub fn is_agent(&self) -> (b: bool)
        ensures
            b == (self is Agent),
    {
        matches!(self, OutputContext::Agent { .. })
    }

    /// Showing nothing.
    pub fn is_empty(&self) -> (b: bool)
        ensures
            b == (self is Empty),
    {
        matches!(self, OutputContext::Empty)
    }

    /// The file path, for a file context.
    pub fn file_path(&self) -> (p: Option<&String>)
        ensures
            self is File ==> p == Some(&self->path),
            !(self is File) ==> p is None,
    {
        match self {
            OutputContext::File { path } => Some(path),
            _ => None,
        }
    }

    /// The agent, for an agent context.
    pub fn agent_id(&self) -> (a: Option<AgentId>)
        ensures
            self is Agent ==> a == Some(self->agent_id),
            !(self is Agent) ==> a is None,
    {
        match self {
            OutputContext::Agent { agent_id } => Some(*agent_id),
            _ => None,
        }
    }
}

} // verus!
