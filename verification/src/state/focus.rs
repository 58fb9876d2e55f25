//! Focus management: which panel has focus, cycling through the panels, and
//! going back to earlier ones.

use vstd::prelude::*;

verus! {

/// Unique identifier for a panel.
#[derive(Debug, Clone, Copy, PartialEq, Eq, Hash, Structural)]
pub struct PanelId(pub usize);

impl PanelId {
    /// File tree panel (the left sidebar).
    pub fn file_tree() -> (p: PanelId)
        ensures
            p == PanelId(0),
    {
        PanelId(0)
    }

    /// Output panel: file content or agent output.
    pub fn output() -> (p: PanelId)
        ensures
            p == PanelId(1),
    {
        PanelId(1)
    }

    /// Input panel: the unified command input.
    pub fn input() -> (p: PanelId)
        ensures
            p == PanelId(2),
    {
        PanelId(2)
    }

    /// Agents panel: the spawned agents.
    pub fn agents() -> (p: PanelId)
        ensures
            p == PanelId(3),
    {
        PanelId(3)
    }
}

proof fn lemma_ring_index()
    ensures
        forall|k: int| 0 <= k < 4 ==> #[trigger] focus_ring()[k] == PanelId(k as usize),
{
    assert(focus_ring()[0] == PanelId(0));
    assert(focus_ring()[1] == PanelId(1));
    assert(focus_ring()[2] == PanelId(2));
    assert(focus_ring()[3] == PanelId(3));
}

/// Most panels remembered for going back.
pub const MAX_FOCUS_HISTORY: usize = 10;

/// The panels in tab order.
pub open spec fn focus_ring() -> Seq<PanelId> {
    seq![PanelId(0), PanelId(1), PanelId(2), PanelId(3)]
}

/// The panel after `p` in tab order (panels outside the ring stay).
pub open spec fn next_panel(p: PanelId) -> PanelId {
    if p.0 < 4 { PanelId(((p.0 + 1) % 4) as usize) } else { p }
}

/// The panel before `p` in tab order (panels outside the ring stay).
pub open spec fn prev_panel(p: PanelId) -> PanelId {
    if p.0 < 4 { PanelId(if p.0 == 0 { 3usize } else { (p.0 - 1) as usize }) } else { p }
}

/// History after leaving `from`, oldest entry dropped past the limit.
pub open spec fn history_after(history: Seq<PanelId>, from: PanelId) -> Seq<PanelId> {
    if history.len() + 1 > MAX_FOCUS_HISTORY { history.push(from).skip(1) } else { history.push(from) }
}

/// The mathematical value of a focus state.
pub struct FocusView {
    pub current: PanelId,
    pub history: Seq<PanelId>,
}

/// Focus state.
pub struct FocusState {
    current: PanelId,
    ring: Vec<PanelId>,
    history: Vec<PanelId>,
    max_history: usize,
}

impl View for FocusState {
    type V = FocusView;

    closed spec fn view(&self) -> FocusView {
        FocusView { current: self.current, history: self.history@ }
    }
}

impl FocusState {
    /// The ring is the four panels in order, and the history is bounded.
    pub closed spec fn wf(&self) -> bool {
        &&& self.ring@ == focus_ring()
        &&& self.max_history == MAX_FOCUS_HISTORY
        &&& self.history@.len() <= MAX_FOCUS_HISTORY
    }

    /// Focus starts on the input panel, with no history.
    pub fn new() -> (f: Self)
        ensures
            f.wf(),
            f@.current == PanelId(2),
            f@.history == Seq::<PanelId>::empty(),
    {
        let mut ring: Vec<PanelId> = Vec::new();
        ring.push(PanelId::file_tree());
        ring.push(PanelId::output());
        ring.push(PanelId::input());
        ring.push(PanelId::agents());
        let f = FocusState { current: PanelId::input(), ring, history: Vec::new(), max_history: MAX_FOCUS_HISTORY };
        assert(f.ring@ =~= focus_ring());
        f
    }

    /// The focused panel.
    pub fn current(&self) -> (p: PanelId)
        ensures
            p == self@.current,
    {
        self.current
    }

    /// Whether `id` has focus.
    pub fn is_focused(&self, id: PanelId) -> (b: bool)
        ensures
            b == (self@.current == id),
    {
        self.current == id
    }

    /// Focus a panel; the panel left is remembered.
    pub fn focus(&mut self, id: PanelId)
        requires
            old(self).wf(),
        ensures
            final(self).wf(),
            final(self)@.current == id,
            old(self)@.current != id ==> final(self)@.history == history_after(old(self)@.history, old(self)@.current),
            old(self)@.current == id ==> final(self)@.history == old(self)@.history,
    {
        if self.current != id {
            self.history.push(self.current);
            if self.history.len() > self.max_history {
                self.history.remove(0);
            }
            self.current = id;
        }
    }

    /// Focus the next panel in tab order.
    pub fn next(&mut self)
        requires
            old(self).wf(),
        ensures
            final(self).wf(),
            final(self)@.current == next_panel(old(self)@.current),
            old(self)@.current.0 < 4 ==> final(self)@.history == history_after(old(self)@.history, old(self)@.current),
            old(self)@.current.0 >= 4 ==> final(self)@.history == old(self)@.history,
    {
        if let Some(idx) = self.position_in_ring(self.current) {
            let next_idx = if idx + 1 < self.ring.len() { idx + 1 } else { 0 };
            proof { lemma_ring_index(); }
            let target = self.ring[next_idx];
            assert(target != self.current);
            self.focus(target);
        }
    }

    /// Focus the previous panel in tab order.
    pub fn prev(&mut self)
        requires
            old(self).wf(),
        ensures
            final(self).wf(),
            final(self)@.current == prev_panel(old(self)@.current),
            old(self)@.current.0 < 4 ==> final(self)@.history == history_after(old(self)@.history, old(self)@.current),
            old(self)@.current.0 >= 4 ==> final(self)@.history == old(self)@.history,
    {
        if let Some(idx) = self.position_in_ring(self.current) {
            let prev_idx = if idx == 0 { self.ring.len() - 1 } else { idx - 1 };
            proof { lemma_ring_index(); }
            let target = self.ring[prev_idx];
            assert(target != self.current);
            self.focus(target);
        }
    }

    /// Go back to the previously focused panel (nothing without history).
    pub fn back(&mut self)
        requires
            old(self).wf(),
        ensures
            final(self).wf(),
            old(self)@.history.len() > 0 ==> final(self)@.current == old(self)@.history.last()
                && final(self)@.history == old(self)@.history.drop_last(),
            old(self)@.history.len() == 0 ==> final(self)@ == old(self)@,
    {
        if let Some(prev) = self.history.pop() {
            self.current = prev;
        }
    }

    /// Index of a panel in the ring.
    fn position_in_ring(&self, id: PanelId) -> (r: Option<usize>)
        requires
            self.wf(),
        ensures
            id.0 < 4 ==> r == Some(id.0),
            id.0 >= 4 ==> r is None,
    {
        let mut k: usize = 0;
        while k < self.ring.len()
            invariant
                self.wf(),
                k <= 4,
                forall|j: int| 0 <= j < k ==> self.ring@[j] != id,
            decreases 4 - k,
        {
            if self.ring[k] == id {
                return Some(k);
            }
            k = k + 1;
        }
        None
    }
}

impl Default for FocusState {
    fn default() -> (f: Self)
        ensures
            f.wf(),
            f@.current == PanelId(2),
            f@.history == Seq::<PanelId>::empty(),
    {
        FocusState::new()
    }
}

/// Law: moving to the next panel and then to the previous one comes back,
/// and so does the other order.
pub proof fn law_next_prev_inverse(p: PanelId)
    ensures
        prev_panel(next_panel(p)) == p,
        next_panel(prev_panel(p)) == p,
{
}

/// Law: going back right after focusing another panel returns to the panel
/// that had focus.
pub proof fn law_back_undoes_focus(history: Seq<PanelId>, from: PanelId)
    requires
        history.len() <= MAX_FOCUS_HISTORY,
    ensures
        history_after(history, from).len() > 0,
        history_after(history, from).last() == from,
        history_after(history, from).len() <= MAX_FOCUS_HISTORY,
        history.len() < MAX_FOCUS_HISTORY ==> history_after(history, from).drop_last() == history,
{
    assert(history.push(from).drop_last() =~= history);
}

} // verus!
