//! Agents spawned by the conductor: their lifecycle and output, and the
//! registry that tracks them.

pub mod types;
pub mod conductor;

use vstd::prelude::*;
use std::time::{Duration, Instant};
use crate::state::context::AgentId;
use crate::agents::types::{AgentStatus, AgentType};
use crate::clock::{instant_now, elapsed_since, duration_between, duration_nanos, nanos_of, time_between};
use crate::text::{lines_of, str_lines, lines_view, owned, concat};

verus! {

/// A spawned agent instance.
#[derive(Debug)]
pub struct Agent {
    /// Unique identifier for this agent.
    pub id: AgentId,
    /// Type of agent (determines its capabilities).
    pub agent_type: AgentType,
    /// Human-readable name for display.
    pub name: String,
    /// Description of what this agent is doing.
    pub description: String,
    /// Current execution status.
    pub status: AgentStatus,
    /// Accumulated output from the agent.
    pub output: String,
    /// When the agent was created.
    pub created_at: Instant,
    /// When the agent finished (once terminal).
    pub completed_at: Option<Instant>,
    /// Token count, estimated from the output's bytes.
    pub token_count: usize,
    /// Number of lines of output.
    pub line_count: usize,
    /// Progress percentage (0-100), where the agent reports one.
    pub progress: Option<u8>,
    /// Parent agent that spawned this agent.
    pub parent_id: Option<AgentId>,
}

/// Estimated tokens of an output: a quarter of its UTF-8 length (as
/// `str::len` gives it).
pub open spec fn token_estimate(output: Seq<char>) -> usize {
    (vstd::utf8::encode_utf8(output).len() as usize) / 4
}

impl Agent {
    /// `next` is `self` with the given status, nothing else changed.
    pub open spec fn moved_to(self, next: Agent, status: AgentStatus) -> bool {
        next == (Agent { status: status, ..self })
    }

    /// `next` is `self` ended with the given status: the status set, a
    /// completion time recorded, nothing else changed.
    pub open spec fn ended_as(self, next: Agent, status: AgentStatus) -> bool {
        &&& next.completed_at is Some
        &&& next == (Agent { status: status, completed_at: next.completed_at, ..self })
    }

    /// `next` is `self` after `chunk` was appended to its output, with the
    /// token and line counts recomputed.
    pub open spec fn appended(self, next: Agent, chunk: Seq<char>) -> bool {
        &&& next.output@ == self.output@ + chunk
        &&& next.token_count == token_estimate(next.output@)
        &&& next.line_count == str_lines(next.output@).len()
        &&& next == (Agent {
            output: next.output,
            token_count: next.token_count,
            line_count: next.line_count,
            ..self
        })
    }

    /// Create a new, pending agent with no output.
    pub fn new(
        id: AgentId,
        agent_type: AgentType,
        name: String,
        description: String,
        parent_id: Option<AgentId>,
    ) -> (a: Self)
        ensures
            a.id == id,
            a.agent_type == agent_type,
            a.name == name,
            a.description == description,
            a.status is Pending,
            a.output@ == Seq::<char>::empty(),
            a.completed_at is None,
            a.token_count == 0,
            a.line_count == 0,
            a.progress is None,
            a.parent_id == parent_id,
    {
        Agent {
            id,
            agent_type,
            name,
            description,
            status: AgentStatus::Pending,
            output: String::new(),
            created_at: instant_now(),
            completed_at: None,
            token_count: 0,
            line_count: 0,
            progress: None,
            parent_id,
        }
    }

    /// Start the agent (status Running).
    pub fn start(&mut self)
        ensures
            old(self).moved_to(*final(self), AgentStatus::Running),
    {
        self.status = AgentStatus::Running;
    }

    /// Append output to the agent, and recount its tokens and lines.
    pub fn append_output(&mut self, chunk: &str)
        ensures
            old(self).appended(*final(self), chunk@),
    {
        self.output.append(chunk);
        let n = self.output.as_str().len();
        self.token_count = n / 4;
        let lines = lines_of(self.output.as_str());
        assert(lines@.len() == lines_view(lines@).len());
        self.line_count = lines.len();
    }

    /// Set the progress percentage, capped at 100.
    pub fn set_progress(&mut self, progress: u8)
        ensures
            *final(self) == (Agent {
                progress: Some(if progress < 100 { progress } else { 100u8 }),
                ..*old(self)
            }),
    {
        self.progress = Some(if progress < 100 { progress } else { 100 });
    }

    /// Mark the agent as completed.
    pub fn complete(&mut self)
        ensures
            old(self).ended_as(*final(self), AgentStatus::Completed),
    {
        self.status = AgentStatus::Completed;
        self.completed_at = Some(instant_now());
    }

    /// Mark the agent as errored.
    pub fn error(&mut self, message: String)
        ensures
            old(self).ended_as(*final(self), AgentStatus::Error(message)),
    {
        self.status = AgentStatus::Error(message);
        self.completed_at = Some(instant_now());
    }

    /// Mark the agent as cancelled.
    pub fn cancel(&mut self)
        ensures
            old(self).ended_as(*final(self), AgentStatus::Cancelled),
    {
        self.status = AgentStatus::Cancelled;
        self.completed_at = Some(instant_now());
    }

    /// The time since creation.
    pub fn elapsed(&self) -> Duration {
        elapsed_since(&self.created_at)
    }

    /// The run duration, once the agent has finished.
    pub fn run_duration(&self) -> (d: Option<Duration>)
        ensures
            d == match self.completed_at {
                Some(end) => Some(time_between(end, self.created_at)),
                None => None,
            },
    {
        match &self.completed_at {
            Some(end) => Some(duration_between(end, &self.created_at)),
            None => None,
        }
    }
}

/// Request to spawn a new agent.
#[derive(Debug, Clone)]
pub struct AgentSpawnRequest {
    /// Type of agent to spawn.
    pub agent_type: AgentType,
    /// Human-readable name.
    pub name: String,
    /// Description of the task.
    pub description: String,
    /// Task-specific parameters (JSON text).
    pub parameters: Option<String>,
    /// Parent agent that is spawning this agent.
    pub parent_id: Option<AgentId>,
}

/// How a spawned agent is run.
#[derive(Debug, Clone)]
pub enum AgentRun {
    /// By the conductor, on this prompt.
    Conductor(String),
    /// In a shell, running this command.
    Shell(String),
    /// No executor takes this kind of agent: it ends with this error.
    Unsupported(String),
}

/// The label of an agent type, as `AgentType::label` gives it.
pub open spec fn type_label(t: AgentType) -> Seq<char> {
    match t {
        AgentType::Conductor => "Conductor"@,
        AgentType::Coder => "Coder"@,
        AgentType::Shell => "Shell"@,
        AgentType::FileOps => "FileOps"@,
        AgentType::Search => "Search"@,
        AgentType::Custom(name) => name@,
        AgentType::CliAgent { config_id } => config_id@,
    }
}

/// The text of a request's parameters, empty when there are none.
pub open spec fn param_text(p: Option<String>) -> Seq<char> {
    match p {
        Some(t) => t@,
        None => Seq::empty(),
    }
}

/// How a spawned agent is run: the conductor on the request's parameters,
/// a shell running them, or, for the other kinds, not at all.
pub fn agent_run(request: &AgentSpawnRequest) -> (r: AgentRun)
    ensures
        match request.agent_type {
            AgentType::Conductor => r matches AgentRun::Conductor(p) && p@ == param_text(request.parameters),
            AgentType::Shell => r matches AgentRun::Shell(c) && c@ == param_text(request.parameters),
            _ => r matches AgentRun::Unsupported(m)
                && m@ == "No executor for "@ + type_label(request.agent_type) + " agents"@,
        },
{
    let text = match &request.parameters {
        Some(p) => owned(p.as_str()),
        None => String::new(),
    };
    match &request.agent_type {
        AgentType::Conductor => AgentRun::Conductor(text),
        AgentType::Shell => AgentRun::Shell(text),
        other => {
            let m = concat("No executor for ", other.label());
            AgentRun::Unsupported(concat(m.as_str(), " agents"))
        },
    }
}

/// Ids strictly decreasing along the list: the most recent agent first,
/// no id twice.
pub open spec fn newest_first(s: Seq<Agent>) -> bool {
    forall|i: int, j: int| 0 <= i < j < s.len() ==> s[i].id.0 > s[j].id.0
}

/// Some agent of the list has this id.
pub open spec fn holds_id(s: Seq<Agent>, id: AgentId) -> bool {
    exists|i: int| 0 <= i < s.len() && s[i].id == id
}

/// `new` is `old` with the agent of the given id (if any) changed by
/// `step`, every other agent and every id unchanged.
pub open spec fn updated(
    old: Seq<Agent>,
    new: Seq<Agent>,
    id: AgentId,
    step: spec_fn(Agent, Agent) -> bool,
) -> bool {
    &&& new.len() == old.len()
    &&& forall|i: int| 0 <= i < old.len() ==> #[trigger] new[i].id == old[i].id
    &&& forall|i: int| 0 <= i < old.len() && old[i].id == id ==> step(old[i], #[trigger] new[i])
    &&& forall|i: int| 0 <= i < old.len() && old[i].id != id ==> #[trigger] new[i] == old[i]
}

/// The agents of `s` whose mask entry is `true`, in order.
pub open spec fn kept(s: Seq<Agent>, mask: Seq<bool>) -> Seq<Agent>
    decreases s.len(),
{
    if s.len() == 0 {
        seq![]
    } else {
        let rest = kept(s.drop_last(), mask);
        if mask[s.len() - 1] { rest.push(s.last()) } else { rest }
    }
}

/// The agents of `s` spawned by `parent`, in order.
pub open spec fn children_of(s: Seq<Agent>, parent: AgentId) -> Seq<Agent>
    decreases s.len(),
{
    if s.len() == 0 {
        seq![]
    } else {
        let rest = children_of(s.drop_last(), parent);
        if s.last().parent_id == Some(parent) { rest.push(s.last()) } else { rest }
    }
}

/// The number of running agents of `s`.
pub open spec fn running_in(s: Seq<Agent>) -> nat
    decreases s.len(),
{
    if s.len() == 0 {
        0
    } else {
        running_in(s.drop_last()) + if s.last().status is Running { 1nat } else { 0nat }
    }
}

/// The ids of the running agents of `s`, in order.
pub open spec fn running_ids(s: Seq<Agent>) -> Seq<AgentId>
    decreases s.len(),
{
    if s.len() == 0 {
        seq![]
    } else {
        let rest = running_ids(s.drop_last());
        if s.last().status is Running { rest.push(s.last().id) } else { rest }
    }
}

/// The agent `a` is one of `s`.
pub open spec fn holds_agent(s: Seq<Agent>, a: Agent) -> bool {
    exists|i: int| 0 <= i < s.len() && #[trigger] s[i] == a
}

/// Every agent of `kept(s, mask)` is one of `s`, and keeping some agents
/// keeps the newest-first order.
pub proof fn lemma_kept_from(s: Seq<Agent>, mask: Seq<bool>)
    ensures
        kept(s, mask).len() <= s.len(),
        forall|k: int| 0 <= k < kept(s, mask).len() ==> holds_agent(s, #[trigger] kept(s, mask)[k]),
        newest_first(s) ==> newest_first(kept(s, mask)),
    decreases s.len(),
{
    if s.len() > 0 {
        let d = s.drop_last();
        lemma_kept_from(d, mask);
        let r = kept(d, mask);
        assert forall|k: int| 0 <= k < r.len() implies holds_agent(s, #[trigger] r[k]) by {
            assert(holds_agent(d, r[k]));
            let i = choose|i: int| 0 <= i < d.len() && #[trigger] d[i] == r[k];
            assert(s[i] == d[i]);
        }
        if !mask[s.len() - 1] {
            assert(kept(s, mask) == r);
        } else {
            let t = r.push(s.last());
            assert(kept(s, mask) == t);
            assert forall|k: int| 0 <= k < t.len() implies holds_agent(s, #[trigger] t[k]) by {
                if k < r.len() {
                    assert(t[k] == r[k]);
                    assert(holds_agent(s, r[k]));
                } else {
                    assert(s[s.len() - 1] == t[k]);
                }
            }
            if newest_first(s) {
                assert forall|a: int, b: int| 0 <= a < b < t.len() implies t[a].id.0 > t[b].id.0 by {
                    if b == r.len() {
                        assert(holds_agent(d, r[a]));
                        let i = choose|i: int| 0 <= i < d.len() && #[trigger] d[i] == r[a];
                        assert(t[a] == s[i]);
                    } else {
                        assert(t[a] == r[a] && t[b] == r[b]);
                    }
                }
            }
        }
    }
}

/// The identifier of the agent at a position, as a spec value.
pub open spec fn id_at(s: Seq<Agent>, i: int) -> AgentId {
    s[i].id
}

/// The ages, in nanoseconds, of the agents that have ended, at instant
/// `now`; none for the others.
pub open spec fn ages_at(s: Seq<Agent>, now: Instant) -> Seq<Option<u128>> {
    Seq::new(s.len(), |i: int| match s[i].completed_at {
        Some(t) => Some(nanos_of(time_between(now, t))),
        None => None,
    })
}

/// A finished agent whose age is known and exceeds `max_age_nanos`.
pub open spec fn expired(a: Agent, age: Option<u128>, max_age_nanos: u128) -> bool {
    match age {
        Some(n) => a.status.is_finished() && n > max_age_nanos,
        None => false,
    }
}

/// Which agents stay: all but the finished ones whose age is known and
/// exceeds `max_age_nanos`.
pub open spec fn unexpired(s: Seq<Agent>, ages: Seq<Option<u128>>, max_age_nanos: u128) -> Seq<bool> {
    Seq::new(s.len(), |i: int| !expired(s[i], ages[i], max_age_nanos))
}

/// The selection after the agents of `s` not kept by `mask` leave, `rest`
/// being what is left: the first agent left when the selected one went, or
/// nothing when none is left; otherwise unchanged.
pub open spec fn selection_after(sel: Option<AgentId>, s: Seq<Agent>, mask: Seq<bool>, rest: Seq<Agent>) -> Option<AgentId> {
    match sel {
        Some(id) => if exists|i: int| 0 <= i < mask.len() && !mask[i] && #[trigger] id_at(s, i) == id {
            if rest.len() == 0 { None } else { Some(rest[0].id) }
        } else {
            Some(id)
        },
        None => None,
    }
}

/// Manages the lifecycle of all agents.
pub struct AgentRegistry {
    /// The agents in display order (most recent first).
    agents: Vec<Agent>,
    /// The id the next spawned agent gets.
    next_id: u64,
    /// The selected agent, shown in the output area.
    selected: Option<AgentId>,
}

impl AgentRegistry {
    /// The agents, most recent first.
    pub closed spec fn entries(&self) -> Seq<Agent> {
        self.agents@
    }

    /// The id the next spawned agent gets.
    pub closed spec fn upcoming_id(&self) -> u64 {
        self.next_id
    }

    /// The selected agent id (which may name an agent no longer held).
    pub closed spec fn selection(&self) -> Option<AgentId> {
        self.selected
    }

    /// Ids strictly decreasing, all below the next id, which is positive.
    pub open spec fn wf(&self) -> bool {
        &&& newest_first(self.entries())
        &&& self.upcoming_id() >= 1
        &&& forall|i: int| 0 <= i < self.entries().len() ==> (#[trigger] self.entries()[i]).id.0 < self.upcoming_id()
    }

    /// Some agent has this id.
    pub open spec fn has_agent(&self, id: AgentId) -> bool {
        holds_id(self.entries(), id)
    }

    /// Create a new, empty registry; the first agent gets id 1.
    pub fn new() -> (r: Self)
        ensures
            r.wf(),
            r.entries() == Seq::<Agent>::empty(),
            r.upcoming_id() == 1,
            r.selection() is None,
    {
        AgentRegistry { agents: Vec::new(), next_id: 1, selected: None }
    }

    /// Whether another agent can get an id (the counter is not exhausted).
    pub fn can_spawn(&self) -> (b: bool)
        ensures
            b == (self.upcoming_id() < u64::MAX),
    {
        self.next_id < u64::MAX
    }

    /// Spawn a new agent at the front of the list and return its id; the
    /// first agent spawned into an unselected registry is selected.
    pub fn spawn(&mut self, request: AgentSpawnRequest) -> (id: AgentId)
        requires
            old(self).wf(),
            old(self).upcoming_id() < u64::MAX,
        ensures
            final(self).wf(),
            id.0 == old(self).upcoming_id(),
            !old(self).has_agent(id),
            final(self).upcoming_id() == old(self).upcoming_id() + 1,
            final(self).entries().len() == old(self).entries().len() + 1,
            final(self).entries().skip(1) == old(self).entries(),
            final(self).entries()[0].id == id,
            final(self).entries()[0].agent_type == request.agent_type,
            final(self).entries()[0].name == request.name,
            final(self).entries()[0].description == request.description,
            final(self).entries()[0].status is Pending,
            final(self).entries()[0].output@ == Seq::<char>::empty(),
            final(self).entries()[0].completed_at is None,
            final(self).entries()[0].token_count == 0,
            final(self).entries()[0].line_count == 0,
            final(self).entries()[0].progress is None,
            final(self).entries()[0].parent_id == request.parent_id,
            final(self).selection() == match old(self).selection() {
                Some(s) => Some(s),
                None => Some(id),
            },
    {
        let id = AgentId::new(self.next_id);
        self.next_id = self.next_id + 1;
        let agent = Agent::new(id, request.agent_type, request.name, request.description, request.parent_id);
        let ghost before = self.agents@;
        self.agents.insert(0, agent);
        assert(self.agents@.skip(1) =~= before);
        assert forall|i: int| 0 <= i < before.len() implies before[i].id != id by {
            assert(before[i].id.0 < id.0);
        }
        assert forall|i: int, j: int| 0 <= i < j < self.agents@.len() implies
            self.agents@[i].id.0 > self.agents@[j].id.0 by {
            if i > 0 {
                assert(self.agents@[i] == before[i - 1]);
            }
            assert(self.agents@[j] == before[j - 1]);
        }
        assert forall|i: int| 0 <= i < self.agents@.len() implies
            (#[trigger] self.agents@[i]).id.0 < self.next_id by {
            if i > 0 {
                assert(self.agents@[i] == before[i - 1]);
            }
        }
        if self.selected.is_none() {
            self.selected = Some(id);
        }
        id
    }

    /// Position of the agent with this id.
    fn position(&self, id: AgentId) -> (r: Option<usize>)
        requires
            self.wf(),
        ensures
            match r {
                Some(i) => i < self.entries().len() && self.entries()[i as int].id == id,
                None => !self.has_agent(id),
            },
    {
        let mut i: usize = 0;
        while i < self.agents.len()
            invariant
                i <= self.agents@.len(),
                forall|k: int| 0 <= k < i ==> self.agents@[k].id != id,
            decreases self.agents@.len() - i,
        {
            if self.agents[i].id == id {
                return Some(i);
            }
            i = i + 1;
        }
        None
    }

    /// The agent with this id, if any (ids are unique in a well-formed
    /// registry).
    pub open spec fn agent_with(&self, id: AgentId) -> Option<Agent> {
        if self.has_agent(id) {
            Some(self.entries()[choose|i: int| 0 <= i < self.entries().len() && self.entries()[i].id == id])
        } else {
            None
        }
    }

    /// The agent with this id, if any.
    pub fn get(&self, id: AgentId) -> (r: Option<&Agent>)
        requires
            self.wf(),
        ensures
            r is Some <==> self.has_agent(id),
            r matches Some(a) ==> exists|i: int|
                0 <= i < self.entries().len() && self.entries()[i] == *a && a.id == id,
            match r {
                Some(a) => self.agent_with(id) == Some(*a),
                None => self.agent_with(id) is None,
            },
    {
        match self.position(id) {
            Some(i) => {
                proof {
                    let s = self.entries();
                    assert(holds_id(s, id));
                    let j = choose|j: int| 0 <= j < s.len() && s[j].id == id;
                    if j < i {
                        assert(s[j].id.0 > s[i as int].id.0);
                    } else if j > i {
                        assert(s[i as int].id.0 > s[j].id.0);
                    }
                }
                Some(&self.agents[i])
            }
            None => None,
        }
    }

    /// The agent with this id, for changing it in place, if any. The agent
    /// keeps its place in the list; the registry stays well formed as long
    /// as the agent keeps its id.
    pub fn get_mut(&mut self, id: AgentId) -> (r: Option<&mut Agent>)
        requires
            old(self).wf(),
        ensures
            r is Some <==> old(self).has_agent(id),
            final(self).upcoming_id() == old(self).upcoming_id(),
            final(self).selection() == old(self).selection(),
            match r {
                Some(a) => exists|i: int| 0 <= i < old(self).entries().len()
                    && #[trigger] old(self).entries()[i] == *a && a.id == id
                    && final(self).entries() == old(self).entries().update(i, *final(a))
                    && (final(a).id == id ==> final(self).wf()),
                None => final(self).entries() == old(self).entries() && final(self).wf(),
            },
    {
        match self.position(id) {
            Some(i) => Some(&mut self.agents[i]),
            None => None,
        }
    }

    /// The selected agent, if it is still held.
    pub fn selected(&self) -> (r: Option<&Agent>)
        requires
            self.wf(),
        ensures
            match self.selection() {
                Some(s) => (r is Some <==> self.has_agent(s)) && (r matches Some(a) ==> exists|i: int|
                    0 <= i < self.entries().len() && self.entries()[i] == *a && a.id == s),
                None => r is None,
            },
    {
        match self.selected {
            Some(s) => self.get(s),
            None => None,
        }
    }

    /// The selected agent id.
    pub fn selected_id(&self) -> (r: Option<AgentId>)
        ensures
            r == self.selection(),
    {
        self.selected
    }

    /// Select the agent with this id, if it is held.
    pub fn select(&mut self, id: AgentId)
        requires
            old(self).wf(),
        ensures
            final(self).wf(),
            final(self).entries() == old(self).entries(),
            final(self).upcoming_id() == old(self).upcoming_id(),
            final(self).selection() == if old(self).has_agent(id) { Some(id) } else { old(self).selection() },
    {
        if self.position(id).is_some() {
            self.selected = Some(id);
        }
    }

    /// Clear the selection.
    pub fn clear_selection(&mut self)
        ensures
            final(self).entries() == old(self).entries(),
            final(self).upcoming_id() == old(self).upcoming_id(),
            final(self).selection() is None,
    {
        self.selected = None;
    }

    /// All agents in display order (most recent first).
    pub fn agents(&self) -> (r: &[Agent])
        ensures
            r@ == self.entries(),
    {
        self.agents.as_slice()
    }

    /// The agents spawned by `parent_id`, in display order.
    pub fn children(&self, parent_id: AgentId) -> (r: Vec<&Agent>)
        ensures
            r@.len() == children_of(self.entries(), parent_id).len(),
            forall|k: int| 0 <= k < r@.len() ==> *r@[k] == children_of(self.entries(), parent_id)[k],
    {
        let ghost s = self.agents@;
        let mut r: Vec<&Agent> = Vec::new();
        let mut i: usize = 0;
        while i < self.agents.len()
            invariant
                s == self.agents@,
                i <= s.len(),
                r@.len() == children_of(s.take(i as int), parent_id).len(),
                forall|k: int| 0 <= k < r@.len() ==> *r@[k] == children_of(s.take(i as int), parent_id)[k],
            decreases s.len() - i,
        {
            assert(s.take(i + 1).drop_last() =~= s.take(i as int));
            if self.agents[i].parent_id == Some(parent_id) {
                r.push(&self.agents[i]);
            }
            i = i + 1;
        }
        assert(s.take(s.len() as int) =~= s);
        r
    }

    /// The number of agents.
    pub fn len(&self) -> (n: usize)
        ensures
            n == self.entries().len(),
    {
        self.agents.len()
    }

    /// Whether no agent is held.
    pub fn is_empty(&self) -> (b: bool)
        ensures
            b == (self.entries().len() == 0),
    {
        self.agents.len() == 0
    }

    /// The number of running agents.
    pub fn running_count(&self) -> (n: usize)
        ensures
            n == running_in(self.entries()),
    {
        let ghost s = self.agents@;
        let mut n: usize = 0;
        let mut i: usize = 0;
        while i < self.agents.len()
            invariant
                s == self.agents@,
                i <= s.len(),
                n == running_in(s.take(i as int)),
                n <= i,
            decreases s.len() - i,
        {
            assert(s.take(i + 1).drop_last() =~= s.take(i as int));
            if self.agents[i].status.is_running() {
                n = n + 1;
            }
            i = i + 1;
        }
        assert(s.take(s.len() as int) =~= s);
        n
    }

    /// Start the agent with this id, if it is held.
    pub fn start(&mut self, id: AgentId)
        requires
            old(self).wf(),
        ensures
            final(self).wf(),
            final(self).upcoming_id() == old(self).upcoming_id(),
            final(self).selection() == old(self).selection(),
            updated(old(self).entries(), final(self).entries(), id,
                |a: Agent, b: Agent| a.moved_to(b, AgentStatus::Running)),
    {
        if let Some(i) = self.position(id) {
            self.agents[i].start();
        }
    }

    /// Set the status of the agent with this id, if it is held.
    pub fn set_status(&mut self, id: AgentId, status: AgentStatus)
        requires
            old(self).wf(),
        ensures
            final(self).wf(),
            final(self).upcoming_id() == old(self).upcoming_id(),
            final(self).selection() == old(self).selection(),
            updated(old(self).entries(), final(self).entries(), id,
                |a: Agent, b: Agent| a.moved_to(b, status)),
    {
        if let Some(i) = self.position(id) {
            self.agents[i].status = status;
        }
    }

    /// Count `lines` more lines of output for the agent with this id, if it
    /// is held (the count stops at the largest `usize`).
    pub fn add_lines(&mut self, id: AgentId, lines: usize)
        requires
            old(self).wf(),
        ensures
            final(self).wf(),
            final(self).upcoming_id() == old(self).upcoming_id(),
            final(self).selection() == old(self).selection(),
            updated(old(self).entries(), final(self).entries(), id,
                |a: Agent, b: Agent| b == (Agent {
                    line_count: if a.line_count + lines <= usize::MAX { (a.line_count + lines) as usize } else { usize::MAX },
                    ..a
                })),
    {
        if let Some(i) = self.position(id) {
            let n = self.agents[i].line_count;
            self.agents[i].line_count = if n <= usize::MAX - lines { n + lines } else { usize::MAX };
        }
    }

    /// Append output to the agent with this id, if it is held.
    pub fn append_output(&mut self, id: AgentId, chunk: &str)
        requires
            old(self).wf(),
        ensures
            final(self).wf(),
            final(self).upcoming_id() == old(self).upcoming_id(),
            final(self).selection() == old(self).selection(),
            updated(old(self).entries(), final(self).entries(), id,
                |a: Agent, b: Agent| a.appended(b, chunk@)),
    {
        if let Some(i) = self.position(id) {
            self.agents[i].append_output(chunk);
        }
    }

    /// Mark the agent with this id as complete, if it is held.
    pub fn complete(&mut self, id: AgentId)
        requires
            old(self).wf(),
        ensures
            final(self).wf(),
            final(self).upcoming_id() == old(self).upcoming_id(),
            final(self).selection() == old(self).selection(),
            updated(old(self).entries(), final(self).entries(), id,
                |a: Agent, b: Agent| a.ended_as(b, AgentStatus::Completed)),
    {
        if let Some(i) = self.position(id) {
            self.agents[i].complete();
        }
    }

    /// Mark the agent with this id as errored, if it is held.
    pub fn error(&mut self, id: AgentId, message: String)
        requires
            old(self).wf(),
        ensures
            final(self).wf(),
            final(self).upcoming_id() == old(self).upcoming_id(),
            final(self).selection() == old(self).selection(),
            updated(old(self).entries(), final(self).entries(), id,
                |a: Agent, b: Agent| a.ended_as(b, AgentStatus::Error(message))),
    {
        if let Some(i) = self.position(id) {
            self.agents[i].error(message);
        }
    }

    /// Cancel the agent with this id, if it is held.
    pub fn cancel(&mut self, id: AgentId)
        requires
            old(self).wf(),
        ensures
            final(self).wf(),
            final(self).upcoming_id() == old(self).upcoming_id(),
            final(self).selection() == old(self).selection(),
            updated(old(self).entries(), final(self).entries(), id,
                |a: Agent, b: Agent| a.ended_as(b, AgentStatus::Cancelled)),
    {
        if let Some(i) = self.position(id) {
            self.agents[i].cancel();
        }
    }

    /// Cancel every running agent (when the workspace changes); returns
    /// their ids, in display order.
    pub fn cancel_running(&mut self) -> (ids: Vec<AgentId>)
        requires
            old(self).wf(),
        ensures
            final(self).wf(),
            final(self).upcoming_id() == old(self).upcoming_id(),
            final(self).selection() == old(self).selection(),
            ids@ == running_ids(old(self).entries()),
            final(self).entries().len() == old(self).entries().len(),
            forall|i: int| 0 <= i < final(self).entries().len() ==> !(#[trigger] final(self).entries()[i].status is Running),
            forall|i: int| 0 <= i < old(self).entries().len() ==> {
                let (a, b) = (old(self).entries()[i], #[trigger] final(self).entries()[i]);
                if a.status is Running { a.ended_as(b, AgentStatus::Cancelled) } else { b == a }
            },
    {
        let ghost s = self.agents@;
        let mut ids: Vec<AgentId> = Vec::new();
        let mut i: usize = 0;
        while i < self.agents.len()
            invariant
                i <= s.len(),
                self.agents@.len() == s.len(),
                self.next_id == old(self).next_id,
                self.selected == old(self).selected,
                s == old(self).agents@,
                ids@ == running_ids(s.take(i as int)),
                forall|k: int| 0 <= k < i ==> {
                    let (a, b) = (s[k], #[trigger] self.agents@[k]);
                    if a.status is Running { a.ended_as(b, AgentStatus::Cancelled) } else { b == a }
                },
                forall|k: int| i <= k < s.len() ==> #[trigger] self.agents@[k] == s[k],
            decreases s.len() - i,
        {
            assert(s.take(i + 1).drop_last() =~= s.take(i as int));
            if matches!(self.agents[i].status, AgentStatus::Running) {
                ids.push(self.agents[i].id);
                let mut a = self.agents.remove(i);
                a.cancel();
                self.agents.insert(i, a);
            }
            i = i + 1;
        }
        assert(s.take(s.len() as int) =~= s);
        proof {
            assert forall|k: int| 0 <= k < self.agents@.len() implies (#[trigger] self.agents@[k]).id == s[k].id by {}
            assert forall|x: int, y: int| 0 <= x < y < self.agents@.len() implies self.agents@[x].id.0 > self.agents@[y].id.0 by {
                assert(self.agents@[x].id == s[x].id);
                assert(self.agents@[y].id == s[y].id);
            }
        }
        ids
    }

    /// Remove every agent and clear the selection; ids keep counting.
    pub fn clear(&mut self)
        requires
            old(self).wf(),
        ensures
            final(self).wf(),
            final(self).entries() == Seq::<Agent>::empty(),
            final(self).upcoming_id() == old(self).upcoming_id(),
            final(self).selection() is None,
    {
        self.agents.clear();
        self.selected = None;
    }

    /// Keep the agents whose mask entry is `true`, in order; returns whether
    /// the selected agent was among those dropped.
    fn keep_masked(&mut self, mask: &Vec<bool>) -> (dropped_selected: bool)
        requires
            old(self).wf(),
            mask@.len() == old(self).entries().len(),
        ensures
            final(self).wf(),
            final(self).entries() == kept(old(self).entries(), mask@),
            final(self).upcoming_id() == old(self).upcoming_id(),
            final(self).selection() == old(self).selection(),
            dropped_selected == match old(self).selection() {
                Some(s) => exists|i: int| 0 <= i < mask@.len() && !mask@[i] && #[trigger] id_at(old(self).entries(), i) == s,
                None => false,
            },
    {
        let ghost s = self.agents@;
        let mut out: Vec<Agent> = Vec::new();
        let mut dropped = false;
        let mut old_agents: Vec<Agent> = Vec::new();
        std::mem::swap(&mut old_agents, &mut self.agents);
        let n = old_agents.len();
        let mut i: usize = 0;
        while i < n
            invariant
                n == s.len(),
                mask@.len() == n,
                i <= n,
                old_agents@ == s.skip(i as int),
                out@ == kept(s.take(i as int), mask@),
                dropped == match self.selected {
                    Some(sel) => exists|k: int| 0 <= k < i && !mask@[k] && #[trigger] id_at(s, k) == sel,
                    None => false,
                },
            decreases n - i,
        {
            let a = old_agents.remove(0);
            assert(a == s.skip(i as int)[0]);
            assert(old_agents@ =~= s.skip(i + 1));
            assert(s.take(i + 1).drop_last() =~= s.take(i as int));
            assert(s.take(i + 1).last() == s[i as int]);
            if mask[i] {
                out.push(a);
            } else {
                if let Some(sel) = self.selected {
                    if a.id == sel {
                        dropped = true;
                        assert(id_at(s, i as int) == sel);
                    }
                }
            }
            i = i + 1;
        }
        assert(s.take(n as int) =~= s);
        assert(s.skip(0) =~= s);
        self.agents = out;
        proof {
            lemma_kept_from(s, mask@);
            let t = kept(s, mask@);
            assert forall|k: int| 0 <= k < t.len() implies (#[trigger] t[k]).id.0 < self.next_id by {
                assert(holds_agent(s, t[k]));
                let j = choose|j: int| 0 <= j < s.len() && #[trigger] s[j] == t[k];
            }
        }
        dropped
    }

    /// Remove the agents whose mask entry is `false`, keeping the order of
    /// the rest. When the selected agent is removed, the first agent left is
    /// selected, or nothing when none is left.
    pub fn retain_masked(&mut self, mask: &Vec<bool>)
        requires
            old(self).wf(),
            mask@.len() == old(self).entries().len(),
        ensures
            final(self).wf(),
            final(self).entries() == kept(old(self).entries(), mask@),
            final(self).upcoming_id() == old(self).upcoming_id(),
            final(self).selection() == match old(self).selection() {
                Some(s) => if exists|i: int| 0 <= i < mask@.len() && !mask@[i] && #[trigger] id_at(old(self).entries(), i) == s {
                    if final(self).entries().len() == 0 { None } else { Some(final(self).entries()[0].id) }
                } else {
                    Some(s)
                },
                None => None,
            },
    {
        if self.keep_masked(mask) {
            self.selected = if self.agents.len() == 0 { None } else { Some(self.agents[0].id) };
        }
    }

    /// Remove the finished agents whose age is known and exceeds
    /// `max_age_nanos`; `ages[i]` is the time in nanoseconds since the agent
    /// at position `i` ended, where it has ended. The rest keep their order.
    /// When the selected agent is removed, the first agent left is selected,
    /// or nothing when none is left.
    pub fn retain_unexpired(&mut self, ages: &Vec<Option<u128>>, max_age_nanos: u128)
        requires
            old(self).wf(),
            ages@.len() == old(self).entries().len(),
        ensures
            final(self).wf(),
            final(self).entries() == kept(old(self).entries(), unexpired(old(self).entries(), ages@, max_age_nanos)),
            final(self).upcoming_id() == old(self).upcoming_id(),
            final(self).selection() == selection_after(old(self).selection(), old(self).entries(),
                unexpired(old(self).entries(), ages@, max_age_nanos), final(self).entries()),
    {
        let ghost s = self.agents@;
        let ghost spec_mask = unexpired(s, ages@, max_age_nanos);
        let mut mask: Vec<bool> = Vec::new();
        let mut i: usize = 0;
        while i < self.agents.len()
            invariant
                s == self.agents@,
                ages@.len() == s.len(),
                i <= s.len(),
                mask@.len() == i,
                spec_mask == unexpired(s, ages@, max_age_nanos),
                forall|k: int| 0 <= k < i ==> mask@[k] == spec_mask[k],
            decreases s.len() - i,
        {
            let expired = match ages[i] {
                Some(a) => self.agents[i].status.is_terminal() && a > max_age_nanos,
                None => false,
            };
            mask.push(!expired);
            i = i + 1;
        }
        assert(mask@ =~= spec_mask);
        self.retain_masked(&mask);
    }

    /// Remove the finished agents (completed, errored or cancelled) that
    /// ended more than `max_age` ago, by the clock read once on entry. When
    /// the selected agent is removed, the first agent left is selected, or
    /// nothing when none is left.
    ///
    /// The clock is read once, so the contract says the ages are the times
    /// from the agents' ends to one instant; the limit is `max_age` in
    /// nanoseconds.
    pub fn cleanup_old(&mut self, max_age: Duration)
        requires
            old(self).wf(),
        ensures
            final(self).wf(),
            final(self).upcoming_id() == old(self).upcoming_id(),
            exists|now: Instant| {
                &&& final(self).entries() == kept(old(self).entries(),
                    unexpired(old(self).entries(), #[trigger] ages_at(old(self).entries(), now), nanos_of(max_age)))
                &&& final(self).selection() == selection_after(old(self).selection(), old(self).entries(),
                    unexpired(old(self).entries(), ages_at(old(self).entries(), now), nanos_of(max_age)), final(self).entries())
            },
    {
        let now = instant_now();
        let max_age_nanos = duration_nanos(&max_age);
        let ghost s = self.agents@;
        let mut ages: Vec<Option<u128>> = Vec::new();
        let mut i: usize = 0;
        while i < self.agents.len()
            invariant
                s == self.agents@,
                i <= s.len(),
                ages@.len() == i,
                ages@ == ages_at(s, now).take(i as int),
            decreases s.len() - i,
        {
            proof { assert(ages_at(s, now).take(i + 1) =~= ages_at(s, now).take(i as int).push(ages_at(s, now)[i as int])); }
            let age = match &self.agents[i].completed_at {
                Some(t) => Some(duration_nanos(&duration_between(&now, t))),
                None => None,
            };
            ages.push(age);
            i = i + 1;
        }
        assert(ages_at(s, now).take(s.len() as int) =~= ages_at(s, now));
        self.retain_unexpired(&ages, max_age_nanos);
    }

    /// Remove the agents spawned by `parent_id`. When the selected agent is
    /// removed, the parent is selected in its place.
    pub fn remove_children(&mut self, parent_id: AgentId)
        requires
            old(self).wf(),
        ensures
            final(self).wf(),
            final(self).entries() == kept(old(self).entries(), Seq::new(old(self).entries().len(),
                |i: int| old(self).entries()[i].parent_id != Some(parent_id))),
            final(self).upcoming_id() == old(self).upcoming_id(),
            final(self).selection() == match old(self).selection() {
                Some(s) => if exists|i: int| 0 <= i < old(self).entries().len()
                    && (#[trigger] old(self).entries()[i]).parent_id == Some(parent_id)
                    && old(self).entries()[i].id == s {
                    Some(parent_id)
                } else {
                    Some(s)
                },
                None => None,
            },
    {
        let ghost s = self.agents@;
        let ghost spec_mask = Seq::new(s.len(), |i: int| s[i].parent_id != Some(parent_id));
        let mut mask: Vec<bool> = Vec::new();
        let mut i: usize = 0;
        while i < self.agents.len()
            invariant
                s == self.agents@,
                i <= s.len(),
                mask@.len() == i,
                spec_mask == Seq::new(s.len(), |k: int| s[k].parent_id != Some(parent_id)),
                forall|k: int| 0 <= k < i ==> mask@[k] == spec_mask[k],
            decreases s.len() - i,
        {
            let keep = match self.agents[i].parent_id {
                Some(p) => p != parent_id,
                None => true,
            };
            mask.push(keep);
            i = i + 1;
        }
        assert(mask@ =~= spec_mask);
        if self.keep_masked(&mask) {
            self.selected = Some(parent_id);
        }
        proof {
            if let Some(sel) = old(self).selection() {
                if exists|i: int| 0 <= i < mask@.len() && !mask@[i] && #[trigger] id_at(s, i) == sel {
                    let i = choose|i: int| 0 <= i < mask@.len() && !mask@[i] && #[trigger] id_at(s, i) == sel;
                    assert(s[i].parent_id == Some(parent_id) && s[i].id == sel);
                }
                if exists|i: int| 0 <= i < s.len() && (#[trigger] s[i]).parent_id == Some(parent_id) && s[i].id == sel {
                    let i = choose|i: int| 0 <= i < s.len() && (#[trigger] s[i]).parent_id == Some(parent_id) && s[i].id == sel;
                    assert(!mask@[i] && id_at(s, i) == sel);
                }
            }
        }
    }
}

impl Default for AgentRegistry {
    fn default() -> (r: Self)
        ensures
            r.wf(),
            r.entries() == Seq::<Agent>::empty(),
            r.upcoming_id() == 1,
            r.selection() is None,
    {
        Self::new()
    }
}

} // verus!
