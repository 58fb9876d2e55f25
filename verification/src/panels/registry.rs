//! The panels of the layout together: the file tree, the output area, the
//! input and the agents list, with the agent registry they show and the
//! workspace selector.

use vstd::prelude::*;
use crate::agents::AgentRegistry;
use crate::panels::agents::{AgentsPanel, AgentsView};
use crate::panels::file_tree::{DirItem, FileTreePanel, TreeView, shown, sorted_entries, paged};
use crate::panels::input::InputPanel;
use crate::panels::output::file_viewer::read_view;
use crate::panels::output::panel::{OutputPanel, OutputView, switched, scrolled_up, scrolled_down};
use crate::dispatch::MouseKind;
use crate::state::context::OutputContext;
use crate::state::focus::PanelId;
use crate::state::workspace::{WorkspaceId, WorkspaceView};
use crate::ui::layout::{AppLayout, Rect, get_layout_with_focus, rect_contains, layout_fits};
use crate::ui::workspace_selector::{
    SelectorMode, SelectorView, WorkspaceSelectorModal, initial_selection, selector_wf,
};

verus! {

/// The panels of the layout.
pub struct PanelRegistry {
    /// Left: the file tree.
    pub file_tree: FileTreePanel,
    /// Center top: file or agent output.
    pub output: OutputPanel,
    /// Center bottom: the command input.
    pub input: InputPanel,
    /// Right: the agents list.
    pub agents: AgentsPanel,
    /// The agents, shown by the output and agents panels.
    pub agent_registry: AgentRegistry,
    /// The workspace selector.
    pub workspace_selector: WorkspaceSelectorModal,
    /// Where the model badge of the status bar was drawn.
    pub model_badge_area: Option<Rect>,
}

impl PanelRegistry {
    /// The panels for the project at `cwd` (its listing is handed to the
    /// file tree later), with no agents.
    pub fn new(cwd: &str) -> (r: Self)
        ensures
            r.file_tree@.root == cwd@,
            r.output@.context is Empty,
            r.input.wf(),
            r.agent_registry.wf(),
            r.agent_registry.entries() == Seq::<crate::agents::Agent>::empty(),
            selector_wf(r.workspace_selector@),
            r.model_badge_area is None,
    {
        PanelRegistry {
            file_tree: FileTreePanel::new(cwd),
            output: OutputPanel::new(),
            input: InputPanel::new(),
            agents: AgentsPanel::new(),
            agent_registry: AgentRegistry::new(),
            workspace_selector: WorkspaceSelectorModal::new(),
            model_badge_area: None,
        }
    }

    /// Show `workspaces` in the selector, the active one selected.
    pub fn open_workspace_selector(&mut self, workspaces: Vec<WorkspaceView>, active_id: Option<WorkspaceId>)
        ensures
            final(self).workspace_selector@ == (SelectorView {
                workspaces: workspaces@,
                active: active_id,
                selected: initial_selection(workspaces@, active_id),
                mode: SelectorMode::List,
                ..old(self).workspace_selector@
            }),
            final(self).output@ == old(self).output@,
    {
        self.workspace_selector.set_workspaces(workspaces, active_id);
    }

    /// Show `context` in the output area (a file read as `read`).
    pub fn set_output_context(&mut self, context: OutputContext, read: Option<Result<String, String>>)
        ensures
            final(self).output@ == switched(old(self).output@, context, match read { Some(r) => Some(read_view(r)), None => None }),
            final(self).file_tree@ == old(self).file_tree@,
    {
        self.output.set_context(context, read);
    }

    /// What the output area shows.
    pub fn output_context(&self) -> (c: &OutputContext)
        ensures
            *c == self.output@.context,
    {
        self.output.context()
    }

    /// Whether `(x, y)` lies on the model badge.
    pub fn is_model_badge_click(&self, x: u16, y: u16) -> (b: bool)
        ensures
            b == (self.model_badge_area matches Some(r) && rect_contains(r, x, y)),
    {
        match self.model_badge_area {
            Some(r) => r.contains(x, y),
            None => false,
        }
    }

    /// Tell the panels their sizes; returns the terminal size for CLI
    /// agents (the output area inside its borders).
    pub fn notify_resize_all(&mut self, layout: &AppLayout) -> (size: (u16, u16))
        ensures
            final(self).output@.cols == layout.output.width,
            final(self).output@.rows == layout.output.height,
            final(self).agents@ == (AgentsView {
                visible_height: (if layout.agents.height >= 2 { (layout.agents.height - 2) / 2 } else { 0 }) as nat,
                ..old(self).agents@
            }),
            final(self).output@.context == old(self).output@.context,
            size.0 == (if layout.output.width >= 2 { layout.output.width - 2 } else { 0 }),
            size.1 == (if layout.output.height >= 2 { layout.output.height - 2 } else { 0 }),
    {
        self.agents.on_resize(layout.agents.height);
        self.output.on_resize(layout.output.width, layout.output.height)
    }

    /// Focus moved to `new_focus`: the panels get the sizes of the layout
    /// for it in `area`, as the layout solver makes it; returns the terminal
    /// size for CLI agents.
    pub fn handle_focus_change(&mut self, new_focus: PanelId, area: Rect) -> (size: (u16, u16))
        ensures
            exists|l: AppLayout| {
                &&& exists|c: Rect, m: Rect| #[trigger] layout_fits(l, area, c, m)
                &&& final(self).output@.cols == l.output.width
                &&& final(self).output@.rows == l.output.height
                &&& size.0 == (if l.output.width >= 2 { l.output.width - 2 } else { 0 })
                &&& size.1 == (if l.output.height >= 2 { l.output.height - 2 } else { 0 })
                &&& final(self).output@.context == old(self).output@.context
            },
    {
        let layout = get_layout_with_focus(area, Some(new_focus));
        self.notify_resize_all(&layout)
    }

    /// The workspace changed to `path` (listed as `listing`): the file tree
    /// shows it and the output area nothing.
    pub fn handle_workspace_switch(&mut self, path: &str, listing: Vec<DirItem>)
        ensures
            final(self).file_tree@.root == path@,
            sorted_entries(final(self).file_tree@.entries),
            final(self).file_tree@.entries.to_multiset() == shown(listing@, 0).to_multiset(),
            final(self).file_tree@.selected == 0,
            final(self).output@ == switched(old(self).output@, OutputContext::Empty, None),
    {
        self.file_tree.set_root(path, listing);
        self.set_output_context(OutputContext::Empty, None);
    }

    /// A turn of the mouse wheel over `panel`: the file tree moves its
    /// selection three entries, the output scrolls three lines and the
    /// agents list three rows (no further than its last agents); over the
    /// input, or outside the panels, nothing happens.
    pub fn wheel(&mut self, panel: Option<PanelId>, up: bool)
        ensures
            final(self).input == old(self).input,
            final(self).agent_registry == old(self).agent_registry,
            final(self).workspace_selector == old(self).workspace_selector,
            final(self).model_badge_area == old(self).model_badge_area,
            final(self).file_tree@ == (if panel == Some(PanelId(0)) {
                paged(old(self).file_tree@, up, 3)
            } else {
                old(self).file_tree@
            }),
            final(self).output@ == (if panel == Some(PanelId(1)) {
                if up { scrolled_up(old(self).output@, 3) } else { scrolled_down(old(self).output@, 3) }
            } else {
                old(self).output@
            }),
            final(self).agents@ == (if panel == Some(PanelId(3)) {
                let v = old(self).agents@;
                let count = old(self).agent_registry.entries().len();
                let max = if count >= v.visible_height { (count - v.visible_height) as nat } else { 0 };
                let offset = if up {
                    if v.scroll_offset >= 3 { (v.scroll_offset - 3) as nat } else { 0 }
                } else if v.scroll_offset + 3 <= max {
                    v.scroll_offset + 3
                } else {
                    max
                };
                AgentsView { scroll_offset: offset, ..v }
            } else {
                old(self).agents@
            }),
    {
        match panel {
            Some(p) => {
                if p.0 == 0 {
                    self.file_tree.page(up, 3);
                } else if p.0 == 1 {
                    let kind = if up { MouseKind::ScrollUp } else { MouseKind::ScrollDown };
                    self.output.handle_mouse(kind);
                } else if p.0 == 3 {
                    if up {
                        self.agents.wheel_up();
                    } else {
                        let count = self.agent_registry.len();
                        self.agents.wheel_down(count);
                    }
                }
            },
            None => {},
        }
    }
}

} // verus!
