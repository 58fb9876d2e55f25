//! The output panel: shows a file or an agent's output as the output
//! context says, keeps the scroll position of each context it left, and
//! sends keys to a CLI agent's terminal while one is shown.

use vstd::prelude::*;
use crate::agents::AgentRegistry;
use crate::agents::types::type_icon;
use crate::dispatch::MouseKind;
use crate::keys::{KeyCode, KeyEvent, key_to_bytes, key_bytes};
use crate::path::{file_name_of, path_file_name};
use crate::state::context::{AgentId, OutputContext};
use crate::text::{concat, decimal, owned, push_decimal, same_text};
use super::agent_viewer::{AgentViewer, ViewerView, max_scroll};
use super::file_viewer::{
    FileViewer, FileView, file_loaded, file_scrolled_down, file_scrolled_to, file_scrolled_up, read_view,
};

verus! {

/// The mathematical value of the output panel.
#[verifier::ext_equal]
pub struct OutputView {
    pub context: OutputContext,
    pub file: FileView,
    pub agent: ViewerView,
    /// Saved scroll offsets, by context key.
    pub saved: Map<Seq<char>, nat>,
    pub visible_height: nat,
    pub cols: u16,
    pub rows: u16,
}

/// Output panel.
pub struct OutputPanel {
    context: OutputContext,
    file_viewer: FileViewer,
    agent_viewer: AgentViewer,
    scroll_states: Vec<(String, usize)>,
    visible_height: usize,
    panel_cols: u16,
    panel_rows: u16,
}

/// The saved offsets, the last entry of a key winning.
pub open spec fn saved_map(s: Seq<(String, usize)>) -> Map<Seq<char>, nat>
    decreases s.len(),
{
    if s.len() == 0 {
        Map::empty()
    } else {
        saved_map(s.drop_last()).insert(s.last().0@, s.last().1 as nat)
    }
}

impl View for OutputPanel {
    type V = OutputView;

    closed spec fn view(&self) -> OutputView {
        OutputView {
            context: self.context,
            file: self.file_viewer@,
            agent: self.agent_viewer@,
            saved: saved_map(self.scroll_states@),
            visible_height: self.visible_height as nat,
            cols: self.panel_cols,
            rows: self.panel_rows,
        }
    }
}

/// The key under which a context's scroll offset is kept.
pub open spec fn context_key(ctx: OutputContext) -> Seq<char> {
    match ctx {
        OutputContext::File { path } => "file:"@ + path@,
        OutputContext::Agent { agent_id } => "agent:agent-"@ + decimal(agent_id.0 as nat),
        OutputContext::Empty => "empty"@,
    }
}

/// The scroll offset of what is shown (none for nothing).
pub open spec fn current_scroll(v: OutputView) -> Option<nat> {
    match v.context {
        OutputContext::File { .. } => Some(v.file.scroll_offset),
        OutputContext::Agent { .. } => Some(v.agent.scroll_offset),
        OutputContext::Empty => None,
    }
}

/// The agent viewer scrolled to `offset`, within the end.
pub open spec fn agent_scrolled_to(a: ViewerView, offset: nat) -> ViewerView {
    ViewerView { scroll_offset: if offset <= max_scroll(a) { offset } else { max_scroll(a) }, ..a }
}

/// The agent viewer scrolled up `n` lines.
pub open spec fn agent_scrolled_up(a: ViewerView, n: nat) -> ViewerView {
    ViewerView { scroll_offset: if a.scroll_offset >= n { (a.scroll_offset - n) as nat } else { 0 }, ..a }
}

/// The agent viewer scrolled down `n` lines.
pub open spec fn agent_scrolled_down(a: ViewerView, n: nat) -> ViewerView {
    let next = a.scroll_offset + n;
    ViewerView { scroll_offset: if next <= max_scroll(a) { next } else { max_scroll(a) }, ..a }
}

/// The panel with what is shown scrolled to `offset`.
pub open spec fn scrolled_to(v: OutputView, offset: nat) -> OutputView {
    match v.context {
        OutputContext::File { .. } => OutputView { file: file_scrolled_to(v.file, offset), ..v },
        OutputContext::Agent { .. } => OutputView { agent: agent_scrolled_to(v.agent, offset), ..v },
        OutputContext::Empty => v,
    }
}

/// The panel with what is shown scrolled up `n` lines.
pub open spec fn scrolled_up(v: OutputView, n: nat) -> OutputView {
    match v.context {
        OutputContext::File { .. } => OutputView { file: file_scrolled_up(v.file, n), ..v },
        OutputContext::Agent { .. } => OutputView { agent: agent_scrolled_up(v.agent, n), ..v },
        OutputContext::Empty => v,
    }
}

/// The panel with what is shown scrolled down `n` lines.
pub open spec fn scrolled_down(v: OutputView, n: nat) -> OutputView {
    match v.context {
        OutputContext::File { .. } => OutputView { file: file_scrolled_down(v.file, n), ..v },
        OutputContext::Agent { .. } => OutputView { agent: agent_scrolled_down(v.agent, n), ..v },
        OutputContext::Empty => v,
    }
}

/// The panel after switching to `ctx`: the offset of what was shown is
/// saved under its key; a file is loaded from `read` (when it is not the
/// one shown); the offset saved for `ctx`, if any, is restored.
pub open spec fn switched(v: OutputView, ctx: OutputContext, read: Option<Result<Seq<char>, Seq<char>>>) -> OutputView {
    let v1 = match current_scroll(v) {
        Some(o) => OutputView { saved: v.saved.insert(context_key(v.context), o), ..v },
        None => v,
    };
    let v2 = OutputView { context: ctx, ..v1 };
    let v3 = match ctx {
        OutputContext::File { path } => match read {
            Some(r) => OutputView { file: file_loaded(v2.file, path@, r), ..v2 },
            None => v2,
        },
        _ => v2,
    };
    if v3.saved.dom().contains(context_key(ctx)) {
        scrolled_to(v3, v3.saved[context_key(ctx)])
    } else {
        v3
    }
}

/// The agent shown, when it is a CLI agent of `reg`.
pub open spec fn shown_cli_agent(v: OutputView, reg: AgentRegistry) -> Option<AgentId> {
    match v.context {
        OutputContext::Agent { agent_id } => match reg.agent_with(agent_id) {
            Some(a) => if a.agent_type is CliAgent { Some(agent_id) } else { None },
            None => None,
        },
        _ => None,
    }
}

/// What a key does in the output panel.
#[derive(Debug, Clone)]
pub enum OutputKeyOutcome {
    /// Bytes for the terminal of the CLI agent shown.
    CliInput { id: AgentId, data: Vec<u8> },
    /// The panel used the key.
    Handled,
    /// The panel did not use the key.
    Unhandled,
}

/// No modifier held.
pub open spec fn bare(key: KeyEvent) -> bool {
    !key.modifiers.shift && !key.modifiers.control && !key.modifiers.alt && !key.modifiers.super_key
}

/// The panel after a key that does not go to a terminal: Up and Down
/// (without modifiers) scroll one line, Page Up and Page Down a screen
/// less two lines, Ctrl+Home to the top.
pub open spec fn after_output_key(v: OutputView, key: KeyEvent) -> (OutputView, bool) {
    let page: nat = if v.visible_height >= 2 { (v.visible_height - 2) as nat } else { 0 };
    match key.code {
        KeyCode::Up => if bare(key) { (scrolled_up(v, 1), true) } else { (v, false) },
        KeyCode::Down => if bare(key) { (scrolled_down(v, 1), true) } else { (v, false) },
        KeyCode::PageUp => (scrolled_up(v, page), true),
        KeyCode::PageDown => (scrolled_down(v, page), true),
        KeyCode::Home => if key.modifiers.control && !key.modifiers.shift && !key.modifiers.alt && !key.modifiers.super_key {
            (scrolled_to(v, 0), true)
        } else {
            (v, false)
        },
        _ => (v, false),
    }
}

proof fn lemma_saved_last(s: Seq<(String, usize)>, key: Seq<char>, k: int)
    requires
        0 <= k < s.len(),
        s[k].0@ == key,
        forall|j: int| k < j < s.len() ==> s[j].0@ != key,
    ensures
        saved_map(s).dom().contains(key),
        saved_map(s)[key] == s[k].1 as nat,
    decreases s.len(),
{
    if k < s.len() - 1 {
        lemma_saved_last(s.drop_last(), key, k);
    }
}

proof fn lemma_saved_absent(s: Seq<(String, usize)>, key: Seq<char>)
    requires
        forall|j: int| 0 <= j < s.len() ==> s[j].0@ != key,
    ensures
        !saved_map(s).dom().contains(key),
    decreases s.len(),
{
    if s.len() > 0 {
        lemma_saved_absent(s.drop_last(), key);
    }
}

proof fn lemma_saved_update(s: Seq<(String, usize)>, k: int, e: (String, usize))
    requires
        0 <= k < s.len(),
        s[k].0@ == e.0@,
        forall|j: int| k < j < s.len() ==> s[j].0@ != e.0@,
    ensures
        saved_map(s.update(k, e)) =~= saved_map(s).insert(e.0@, e.1 as nat),
    decreases s.len(),
{
    if k == s.len() - 1 {
        assert(s.update(k, e).drop_last() =~= s.drop_last());
    } else {
        assert(s.update(k, e).drop_last() =~= s.drop_last().update(k, e));
        lemma_saved_update(s.drop_last(), k, e);
    }
}

/// The key of `ctx`.
fn key_of(ctx: &OutputContext) -> (k: String)
    ensures
        k@ == context_key(*ctx),
{
    match ctx {
        OutputContext::File { path } => concat("file:", path.as_str()),
        OutputContext::Agent { agent_id } => {
            let mut s = owned("agent:agent-");
            push_decimal(&mut s, agent_id.0);
            s
        }
        OutputContext::Empty => owned("empty"),
    }
}

impl OutputPanel {
    /// A panel showing nothing, 20 lines high, sized 80 by 24.
    pub fn new() -> (p: Self)
        ensures
            p@.context is Empty,
            p@.saved == Map::<Seq<char>, nat>::empty(),
            p@.visible_height == 20,
            p@.cols == 80,
            p@.rows == 24,
            p@.file.scroll_offset == 0,
            p@.agent.scroll_offset == 0,
    {
        let p = OutputPanel {
            context: OutputContext::Empty,
            file_viewer: FileViewer::new(),
            agent_viewer: AgentViewer::new(),
            scroll_states: Vec::new(),
            visible_height: 20,
            panel_cols: 80,
            panel_rows: 24,
        };
        assert(saved_map(p.scroll_states@) =~= Map::<Seq<char>, nat>::empty());
        p
    }

    /// What is shown.
    pub fn context(&self) -> (c: &OutputContext)
        ensures
            *c == self@.context,
    {
        &self.context
    }

    /// The file viewer.
    pub fn file_viewer(&self) -> (f: &FileViewer)
        ensures
            f@ == self@.file,
    {
        &self.file_viewer
    }

    /// The agent viewer.
    pub fn agent_viewer(&self) -> (a: &AgentViewer)
        ensures
            a@ == self@.agent,
    {
        &self.agent_viewer
    }

    /// The agent viewer, to refresh it from the registry.
    pub fn agent_viewer_mut(&mut self) -> (a: &mut AgentViewer)
        ensures
            (*a)@ == old(self)@.agent,
            final(self)@ == (OutputView { agent: final(a)@, ..old(self)@ }),
    {
        &mut self.agent_viewer
    }

    /// The offset saved under `key`, if any.
    fn saved_offset(&self, key: &str) -> (r: Option<usize>)
        ensures
            match r {
                Some(o) => self@.saved.dom().contains(key@) && self@.saved[key@] == o as nat,
                None => !self@.saved.dom().contains(key@),
            },
    {
        let mut i = self.scroll_states.len();
        while i > 0
            invariant
                i <= self.scroll_states@.len(),
                forall|j: int| i <= j < self.scroll_states@.len() ==> self.scroll_states@[j].0@ != key@,
            decreases i,
        {
            if same_text(self.scroll_states[i - 1].0.as_str(), key) {
                proof { lemma_saved_last(self.scroll_states@, key@, i - 1); }
                return Some(self.scroll_states[i - 1].1);
            }
            i = i - 1;
        }
        proof { lemma_saved_absent(self.scroll_states@, key@); }
        None
    }

    /// Save `offset` under `key`.
    fn save_offset(&mut self, key: String, offset: usize)
        ensures
            final(self)@ == (OutputView { saved: old(self)@.saved.insert(key@, offset as nat), ..old(self)@ }),
    {
        let mut i = self.scroll_states.len();
        while i > 0
            invariant
                i <= self.scroll_states@.len(),
                self.scroll_states@ == old(self).scroll_states@,
                self@ == old(self)@,
                self.context == old(self).context,
                self.file_viewer@ == old(self).file_viewer@,
                self.agent_viewer@ == old(self).agent_viewer@,
                self.visible_height == old(self).visible_height,
                self.panel_cols == old(self).panel_cols,
                self.panel_rows == old(self).panel_rows,
                forall|j: int| i <= j < self.scroll_states@.len() ==> self.scroll_states@[j].0@ != key@,
            decreases i,
        {
            if same_text(self.scroll_states[i - 1].0.as_str(), key.as_str()) {
                proof { lemma_saved_update(self.scroll_states@, i - 1, (key, offset)); }
                self.scroll_states.set(i - 1, (key, offset));
                return;
            }
            i = i - 1;
        }
        let ghost before = self.scroll_states@;
        self.scroll_states.push((key, offset));
        assert(self.scroll_states@.drop_last() =~= before);
    }

    /// The scroll offset of what is shown.
    fn current_scroll_offset(&self) -> (r: Option<usize>)
        ensures
            match r { Some(o) => current_scroll(self@) == Some(o as nat), None => current_scroll(self@) is None },
    {
        match &self.context {
            OutputContext::File { .. } => Some(self.file_viewer.scroll_offset()),
            OutputContext::Agent { .. } => Some(self.agent_viewer.scroll_offset()),
            OutputContext::Empty => None,
        }
    }

    /// Scroll what is shown to `offset`, within the end.
    pub fn apply_scroll(&mut self, offset: usize)
        ensures
            final(self)@ == scrolled_to(old(self)@, offset as nat),
    {
        match &self.context {
            OutputContext::File { .. } => self.file_viewer.set_scroll_offset(offset),
            OutputContext::Agent { .. } => self.agent_viewer.set_scroll_offset(offset),
            OutputContext::Empty => {}
        }
    }

    /// Scroll what is shown up by `lines`.
    pub fn scroll_up(&mut self, lines: usize)
        ensures
            final(self)@ == scrolled_up(old(self)@, lines as nat),
    {
        match &self.context {
            OutputContext::File { .. } => self.file_viewer.scroll_up(lines),
            OutputContext::Agent { .. } => self.agent_viewer.scroll_up(lines),
            OutputContext::Empty => {}
        }
    }

    /// Scroll what is shown down by `lines`, within the end.
    pub fn scroll_down(&mut self, lines: usize)
        ensures
            final(self)@ == scrolled_down(old(self)@, lines as nat),
    {
        match &self.context {
            OutputContext::File { .. } => self.file_viewer.scroll_down(lines),
            OutputContext::Agent { .. } => self.agent_viewer.scroll_down(lines),
            OutputContext::Empty => {}
        }
    }

    /// Show `context`. A file is loaded from `read` (the caller reads it
    /// when `file_viewer().needs_load` says so); the scroll offset of what
    /// was shown is saved, and the one saved for `context` restored.
    pub fn set_context(&mut self, context: OutputContext, read: Option<Result<String, String>>)
        ensures
            final(self)@ == switched(old(self)@, context, match read { Some(r) => Some(read_view(r)), None => None }),
    {
        if let Some(o) = self.current_scroll_offset() {
            let k = key_of(&self.context);
            self.save_offset(k, o);
        }
        self.context = context;
        match &self.context {
            OutputContext::File { path } => {
                if let Some(r) = read {
                    self.file_viewer.load_file(path.as_str(), r);
                }
            }
            _ => {}
        }
        let key = key_of(&self.context);
        if let Some(o) = self.saved_offset(key.as_str()) {
            self.apply_scroll(o);
        }
    }

    /// The CLI agent shown, if any.
    pub fn current_cli_agent_id(&self, registry: &AgentRegistry) -> (r: Option<AgentId>)
        requires
            registry.wf(),
        ensures
            r == shown_cli_agent(self@, *registry),
    {
        match &self.context {
            OutputContext::Agent { agent_id } => match registry.get(*agent_id) {
                Some(a) => if a.agent_type.is_cli_agent() { Some(*agent_id) } else { None },
                None => None,
            },
            _ => None,
        }
    }

    /// Handle a key: while a CLI agent is shown, a key with terminal bytes
    /// goes to its terminal; otherwise the panel scrolls.
    pub fn handle_key(&mut self, key: &KeyEvent, registry: &AgentRegistry) -> (o: OutputKeyOutcome)
        requires
            registry.wf(),
        ensures
            match shown_cli_agent(old(self)@, *registry) {
                Some(id) => if key_bytes(key.code, key.modifiers.control).len() > 0 {
                    o matches OutputKeyOutcome::CliInput { id: i, data }
                        && i == id && data@ == key_bytes(key.code, key.modifiers.control)
                        && final(self)@ == old(self)@
                } else {
                    (final(self)@, o is Handled) == after_output_key(old(self)@, *key) && !(o is CliInput)
                },
                None => (final(self)@, o is Handled) == after_output_key(old(self)@, *key) && !(o is CliInput),
            },
    {
        if let Some(id) = self.current_cli_agent_id(registry) {
            let bytes = key_to_bytes(key.code, key.modifiers);
            if bytes.len() > 0 {
                return OutputKeyOutcome::CliInput { id, data: bytes };
            }
        }
        let m = key.modifiers;
        let page = if self.visible_height >= 2 { self.visible_height - 2 } else { 0 };
        match key.code {
            KeyCode::Up => {
                if !m.shift && !m.control && !m.alt && !m.super_key {
                    self.scroll_up(1);
                    return OutputKeyOutcome::Handled;
                }
            }
            KeyCode::Down => {
                if !m.shift && !m.control && !m.alt && !m.super_key {
                    self.scroll_down(1);
                    return OutputKeyOutcome::Handled;
                }
            }
            KeyCode::PageUp => {
                self.scroll_up(page);
                return OutputKeyOutcome::Handled;
            }
            KeyCode::PageDown => {
                self.scroll_down(page);
                return OutputKeyOutcome::Handled;
            }
            KeyCode::Home => {
                if m.control && !m.shift && !m.alt && !m.super_key {
                    self.apply_scroll(0);
                    return OutputKeyOutcome::Handled;
                }
            }
            _ => {}
        }
        OutputKeyOutcome::Unhandled
    }

    /// The mouse wheel scrolls three lines; returns whether it was used.
    pub fn handle_mouse(&mut self, kind: MouseKind) -> (used: bool)
        ensures
            kind is ScrollUp ==> used && final(self)@ == scrolled_up(old(self)@, 3),
            kind is ScrollDown ==> used && final(self)@ == scrolled_down(old(self)@, 3),
            !(kind is ScrollUp || kind is ScrollDown) ==> !used && final(self)@ == old(self)@,
    {
        match kind {
            MouseKind::ScrollUp => {
                self.scroll_up(3);
                true
            }
            MouseKind::ScrollDown => {
                self.scroll_down(3);
                true
            }
            _ => false,
        }
    }

    /// The panel was resized to `cols` by `rows`: the viewers show the rows
    /// inside the borders. Returns the terminal size for CLI agents (the
    /// size inside the borders).
    pub fn on_resize(&mut self, cols: u16, rows: u16) -> (size: (u16, u16))
        ensures
            ({
                let h: nat = if rows >= 2 { (rows - 2) as nat } else { 0 };
                final(self)@ == (OutputView {
                    cols: cols,
                    rows: rows,
                    visible_height: h,
                    file: FileView { visible_height: h, ..old(self)@.file },
                    agent: ViewerView { visible_height: h, ..old(self)@.agent },
                    ..old(self)@
                })
            }),
            size.0 == (if cols >= 2 { cols - 2 } else { 0 }),
            size.1 == (if rows >= 2 { rows - 2 } else { 0 }),
    {
        self.panel_cols = cols;
        self.panel_rows = rows;
        let h: usize = if rows >= 2 { (rows - 2) as usize } else { 0 };
        self.visible_height = h;
        self.file_viewer.set_visible_height(h);
        self.agent_viewer.set_visible_height(h);
        let c: u16 = if cols >= 2 { cols - 2 } else { 0 };
        let r: u16 = if rows >= 2 { rows - 2 } else { 0 };
        (c, r)
    }

    /// The terminal size for CLI agents: the panel inside its borders.
    pub fn pty_size(&self) -> (size: (u16, u16))
        ensures
            size.0 == (if self@.cols >= 2 { self@.cols - 2 } else { 0 }),
            size.1 == (if self@.rows >= 2 { self@.rows - 2 } else { 0 }),
    {
        let c: u16 = if self.panel_cols >= 2 { self.panel_cols - 2 } else { 0 };
        let r: u16 = if self.panel_rows >= 2 { self.panel_rows - 2 } else { 0 };
        (c, r)
    }

    /// The panel's title: the file's name (or its path, when it has no
    /// name), the agent's icon and name (or its id when it is not held),
    /// or just "Output".
    pub fn title(&self, registry: &AgentRegistry) -> (t: String)
        requires
            registry.wf(),
        ensures
            t@ == output_title(self@.context, *registry),
    {
        match &self.context {
            OutputContext::File { path } => {
                let name = match file_name_of(path.as_str()) {
                    Some(n) => n,
                    None => owned(path.as_str()),
                };
                let a = concat(" Output: ", name.as_str());
                concat(a.as_str(), " ")
            }
            OutputContext::Agent { agent_id } => match registry.get(*agent_id) {
                Some(agent) => {
                    let a = concat(" ", agent.agent_type.icon());
                    let b = concat(a.as_str(), " ");
                    let c = concat(b.as_str(), agent.name.as_str());
                    concat(c.as_str(), " ")
                }
                None => {
                    let mut s = owned(" Agent agent-");
                    push_decimal(&mut s, agent_id.0);
                    concat(s.as_str(), " ")
                }
            },
            OutputContext::Empty => owned(" Output "),
        }
    }
}

/// The title for `ctx`.
pub open spec fn output_title(ctx: OutputContext, reg: AgentRegistry) -> Seq<char> {
    match ctx {
        OutputContext::File { path } => " Output: "@ + match path_file_name(path@) {
            Some(n) => n,
            None => path@,
        } + " "@,
        OutputContext::Agent { agent_id } => match reg.agent_with(agent_id) {
            Some(a) => " "@ + type_icon(a.agent_type) + " "@ + a.name@ + " "@,
            None => " Agent agent-"@ + decimal(agent_id.0 as nat) + " "@,
        },
        OutputContext::Empty => " Output "@,
    }
}

impl Default for OutputPanel {
    fn default() -> (p: Self)
        ensures
            p@.context is Empty,
    {
        Self::new()
    }
}


/// Leaving an agent's output for nothing and coming back restores the
/// scroll position (when it lay within the output).
pub proof fn law_return_restores_scroll(v: OutputView, id: AgentId)
    requires
        v.context == (OutputContext::Agent { agent_id: id }),
        v.agent.scroll_offset <= max_scroll(v.agent),
    ensures
        switched(switched(v, OutputContext::Empty, None), OutputContext::Agent { agent_id: id }, None).agent
            == v.agent,
{
    let v1 = switched(v, OutputContext::Empty, None);
    assert(v1.agent == v.agent);
    assert(v1.saved.dom().contains(context_key(v.context)));
}

} // verus!
