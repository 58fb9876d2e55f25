//! The agent viewer: the text it shows for an agent (with its children's
//! output for the conductor), and its scrolling.

use vstd::prelude::*;
use crate::agents::Agent;
use crate::agents::types::{AgentType, AgentStatus, status_text, type_icon};
use crate::text::{lines_of, lines_view, str_lines, concat, owned, decimal, u64_to_string};

verus! {

/// The lines shown for one child of the conductor: a blank line, a header
/// with its icon, name and status, its output lines (or a note that it has
/// none) behind a bar, and a closing rule.
pub open spec fn child_block(c: Agent) -> Seq<Seq<char>> {
    let header = "┌─── "@ + type_icon(c.agent_type) + " "@ + c.name@ + " ("@ + status_text(c.status) + ") ───"@;
    let body = if c.output@.len() == 0 {
        seq!["│ (no output)"@]
    } else {
        str_lines(c.output@).map_values(|l: Seq<char>| "│ "@ + l)
    };
    seq![Seq::<char>::empty(), header] + body + seq!["└───────────────────────────────"@]
}

/// The blocks of all children, in order.
pub open spec fn children_blocks(cs: Seq<Agent>) -> Seq<Seq<char>>
    decreases cs.len(),
{
    if cs.len() == 0 { seq![] } else { children_blocks(cs.drop_last()) + child_block(cs.last()) }
}

/// The lines shown for an agent: its output lines, then, for the
/// conductor, the blocks of its children.
pub open spec fn viewer_lines(a: Agent, cs: Seq<Agent>) -> Seq<Seq<char>> {
    let own = if a.output@.len() == 0 { seq![] } else { str_lines(a.output@) };
    if a.agent_type == AgentType::Conductor && cs.len() > 0 { own + children_blocks(cs) } else { own }
}

/// The byte lengths of the children's outputs, summed.
pub open spec fn children_output_len(cs: Seq<Agent>) -> int
    decreases cs.len(),
{
    if cs.len() == 0 { 0 } else { children_output_len(cs.drop_last()) + vstd::utf8::encode_utf8(cs.last().output@).len() }
}

/// Some agent of the list is running.
pub open spec fn any_running(cs: Seq<Agent>) -> bool {
    exists|i: int| 0 <= i < cs.len() && cs[i].status is Running
}

/// The mathematical value of the viewer.
pub struct ViewerView {
    pub scroll_offset: nat,
    pub visible_height: nat,
    pub lines: Seq<Seq<char>>,
    pub line_count: nat,
    pub last_output_len: nat,
    pub last_agent_id: Option<u64>,
    pub last_children_len: nat,
}

/// Agent output viewer.
pub struct AgentViewer {
    scroll_offset: usize,
    visible_height: usize,
    cached_lines: Vec<String>,
    cached_line_count: usize,
    last_output_len: usize,
    last_agent_id: Option<u64>,
    last_children_len: usize,
}

impl View for AgentViewer {
    type V = ViewerView;

    closed spec fn view(&self) -> ViewerView {
        ViewerView {
            scroll_offset: self.scroll_offset as nat,
            visible_height: self.visible_height as nat,
            lines: lines_view(self.cached_lines@),
            line_count: self.cached_line_count as nat,
            last_output_len: self.last_output_len as nat,
            last_agent_id: self.last_agent_id,
            last_children_len: self.last_children_len as nat,
        }
    }
}

/// The largest scroll offset: the lines beyond one screen.
pub open spec fn max_scroll(v: ViewerView) -> nat {
    if v.line_count >= v.visible_height { (v.line_count - v.visible_height) as nat } else { 0 }
}

/// The view after showing an agent: when the agent, its output length and
/// its children's output length are those last shown, nothing changes;
/// otherwise the lines are rebuilt, and while anything runs the view
/// follows the end.
pub open spec fn cache_updated(v: ViewerView, a: Agent, cs: Seq<Agent>) -> ViewerView {
    let out_len = vstd::utf8::encode_utf8(a.output@).len();
    let kids = children_output_len(cs);
    if v.last_agent_id == Some(a.id.0) && v.last_output_len == out_len && v.last_children_len == kids {
        v
    } else {
        let lines = viewer_lines(a, cs);
        let w = ViewerView {
            lines: lines,
            line_count: lines.len(),
            last_output_len: out_len,
            last_agent_id: Some(a.id.0),
            last_children_len: kids as nat,
            ..v
        };
        if a.status is Running || any_running(cs) { ViewerView { scroll_offset: max_scroll(w), ..w } } else { w }
    }
}

fn push_lines(out: &mut Vec<String>, text: &str, prefix: &str)
    ensures
        lines_view(final(out)@) == lines_view(old(out)@) + str_lines(text@).map_values(|l: Seq<char>| prefix@ + l),
{
    let ls = lines_of(text);
    let ghost start = lines_view(out@);
    let mut i: usize = 0;
    while i < ls.len()
        invariant
            i <= ls@.len(),
            lines_view(ls@) == str_lines(text@),
            lines_view(out@) == start + str_lines(text@).take(i as int).map_values(|l: Seq<char>| prefix@ + l),
        decreases ls@.len() - i,
    {
        let line = concat(prefix, ls[i].as_str());
        let ghost before = out@;
        out.push(line);
        proof {
            assert(lines_view(ls@)[i as int] == ls@[i as int]@);
            assert(str_lines(text@).take(i + 1) =~= str_lines(text@).take(i as int).push(ls@[i as int]@));
            assert(lines_view(out@) =~= lines_view(before).push(line@));
            assert(lines_view(out@) =~= start + str_lines(text@).take(i + 1).map_values(|l: Seq<char>| prefix@ + l));
        }
        i = i + 1;
    }
    assert(str_lines(text@).take(ls@.len() as int) =~= str_lines(text@));
}

impl AgentViewer {
    /// An empty viewer, 20 lines high.
    pub fn new() -> (v: Self)
        ensures
            v@.scroll_offset == 0,
            v@.visible_height == 20,
            v@.lines == Seq::<Seq<char>>::empty(),
            v@.line_count == 0,
            v@.last_output_len == 0,
            v@.last_agent_id is None,
            v@.last_children_len == 0,
    {
        let v = AgentViewer {
            scroll_offset: 0,
            visible_height: 20,
            cached_lines: Vec::new(),
            cached_line_count: 0,
            last_output_len: 0,
            last_agent_id: None,
            last_children_len: 0,
        };
        assert(lines_view(v.cached_lines@) =~= Seq::<Seq<char>>::empty());
        v
    }

    /// The scroll offset.
    pub fn scroll_offset(&self) -> (o: usize)
        ensures
            o == self@.scroll_offset,
    {
        self.scroll_offset
    }

    /// The lines shown.
    pub fn lines(&self) -> (l: &[String])
        ensures
            lines_view(l@) == self@.lines,
    {
        self.cached_lines.as_slice()
    }

    fn max_scroll_exec(&self) -> (m: usize)
        ensures
            m == max_scroll(self@),
    {
        if self.cached_line_count >= self.visible_height { self.cached_line_count - self.visible_height } else { 0 }
    }

    /// Set the scroll offset, no further than the end allows.
    pub fn set_scroll_offset(&mut self, offset: usize)
        ensures
            final(self)@ == (ViewerView {
                scroll_offset: if offset <= max_scroll(old(self)@) { offset as nat } else { max_scroll(old(self)@) },
                ..old(self)@
            }),
    {
        let max = self.max_scroll_exec();
        self.scroll_offset = if offset <= max { offset } else { max };
    }

    /// Set the number of visible lines.
    pub fn set_visible_height(&mut self, height: usize)
        ensures
            final(self)@ == (ViewerView { visible_height: height as nat, ..old(self)@ }),
    {
        self.visible_height = height;
    }

    /// Scroll up by `lines`.
    pub fn scroll_up(&mut self, lines: usize)
        ensures
            final(self)@ == (ViewerView {
                scroll_offset: if old(self)@.scroll_offset >= lines { (old(self)@.scroll_offset - lines) as nat } else { 0 },
                ..old(self)@
            }),
    {
        self.scroll_offset = if self.scroll_offset >= lines { self.scroll_offset - lines } else { 0 };
    }

    /// Scroll down by `lines`, no further than the end allows.
    pub fn scroll_down(&mut self, lines: usize)
        ensures
            ({
                let next = old(self)@.scroll_offset + lines;
                final(self)@ == (ViewerView {
                    scroll_offset: if next <= max_scroll(old(self)@) { next as nat } else { max_scroll(old(self)@) },
                    ..old(self)@
                })
            }),
    {
        let max = self.max_scroll_exec();
        let next = self.scroll_offset as u128 + lines as u128;
        self.scroll_offset = if next <= max as u128 { next as usize } else { max };
    }

    /// Reset the viewer (the height is kept).
    pub fn clear(&mut self)
        ensures
            final(self)@ == (ViewerView {
                scroll_offset: 0,
                lines: Seq::empty(),
                line_count: 0,
                last_output_len: 0,
                last_agent_id: None,
                last_children_len: 0,
                ..old(self)@
            }),
    {
        self.scroll_offset = 0;
        self.cached_lines.clear();
        self.cached_line_count = 0;
        self.last_output_len = 0;
        self.last_agent_id = None;
        self.last_children_len = 0;
        assert(lines_view(self.cached_lines@) =~= Seq::<Seq<char>>::empty());
    }

    /// Bring the shown lines up to date with an agent and its children.
    pub fn update_cache(&mut self, agent: &Agent, children: &[&Agent])
        requires
            children_output_len(children@.map_values(|c: &Agent| *c)) <= usize::MAX,
        ensures
            final(self)@ == cache_updated(old(self)@, *agent, children@.map_values(|c: &Agent| *c)),
    {
        let ghost cs = children@.map_values(|c: &Agent| *c);
        let agent_id = agent.id.value();
        let output_len = agent.output.as_str().as_bytes().len();
        let mut children_len: usize = 0;
        let mut i: usize = 0;
        while i < children.len()
            invariant
                cs == children@.map_values(|c: &Agent| *c),
                i <= cs.len(),
                children_output_len(cs) <= usize::MAX,
                children_len == children_output_len(cs.take(i as int)),
            decreases cs.len() - i,
        {
            proof {
                assert(cs.take(i + 1).drop_last() =~= cs.take(i as int));
                lemma_children_len_prefix(cs, i as nat + 1);
            }
            children_len = children_len + children[i].output.as_str().as_bytes().len();
            i = i + 1;
        }
        assert(cs.take(cs.len() as int) =~= cs);
        if self.last_agent_id == Some(agent_id) && self.last_output_len == output_len && self.last_children_len == children_len {
            return;
        }
        self.last_agent_id = Some(agent_id);
        self.last_output_len = output_len;
        self.last_children_len = children_len;
        let mut lines: Vec<String> = Vec::new();
        if !agent.output.as_str().is_empty() {
            push_lines(&mut lines, agent.output.as_str(), "");
            assert(str_lines(agent.output@).map_values(|l: Seq<char>| ""@ + l) =~= str_lines(agent.output@)) by {
                reveal_strlit("");
                assert forall|k: int| 0 <= k < str_lines(agent.output@).len() implies
                    ""@ + str_lines(agent.output@)[k] =~= str_lines(agent.output@)[k] by {}
            }
        }
        let ghost own = lines_view(lines@);
        assert(own =~= (if agent.output@.len() == 0 { seq![] } else { str_lines(agent.output@) }));
        let conductor = matches!(agent.agent_type, AgentType::Conductor);
        if conductor && children.len() > 0 {
            let mut j: usize = 0;
            while j < children.len()
                invariant
                    cs == children@.map_values(|c: &Agent| *c),
                    j <= cs.len(),
                    lines_view(lines@) == own + children_blocks(cs.take(j as int)),
                decreases cs.len() - j,
            {
                let ghost before = lines_view(lines@);
                let child = children[j];
                proof { assert(cs[j as int] == *child); }
                lines.push(String::new());
                assert(lines_view(lines@) =~= before.push(Seq::<char>::empty()));
                let h = concat("┌─── ", child.agent_type.icon());
                let h = concat(h.as_str(), " ");
                let h = concat(h.as_str(), child.name.as_str());
                let h = concat(h.as_str(), " (");
                let st = child.status.display_string();
                let h = concat(h.as_str(), st.as_str());
                let h = concat(h.as_str(), ") ───");
                let ghost header = h@;
                assert(header == "┌─── "@ + type_icon(child.agent_type) + " "@ + child.name@ + " ("@ + status_text(child.status) + ") ───"@);
                let ghost l0 = lines_view(lines@);
                lines.push(h);
                assert(lines_view(lines@) =~= l0.push(header));
                let ghost l1 = lines_view(lines@);
                if child.output.as_str().is_empty() {
                    let note = owned("│ (no output)");
                    lines.push(note);
                    assert(lines_view(lines@) =~= l1 + seq!["│ (no output)"@]);
                } else {
                    push_lines(&mut lines, child.output.as_str(), "│ ");
                }
                let ghost l2 = lines_view(lines@);
                let rule = owned("└───────────────────────────────");
                lines.push(rule);
                assert(lines_view(lines@) =~= l2.push("└───────────────────────────────"@));
                proof {
                    assert(cs.take(j + 1).drop_last() =~= cs.take(j as int));
                    assert(lines_view(lines@) =~= before + child_block(*child));
                }
                j = j + 1;
            }
            assert(cs.take(cs.len() as int) =~= cs);
        }
        assert(lines_view(lines@) == viewer_lines(*agent, cs));
        self.cached_line_count = lines.len();
        self.cached_lines = lines;
        let mut running = agent.status.is_running();
        let mut k: usize = 0;
        while k < children.len()
            invariant
                cs == children@.map_values(|c: &Agent| *c),
                k <= cs.len(),
                running == (agent.status is Running || exists|m: int| 0 <= m < k && cs[m].status is Running),
            decreases cs.len() - k,
        {
            proof { assert(cs[k as int] == *children[k as int]); }
            if children[k].status.is_running() {
                running = true;
            }
            proof {
                if cs[k as int].status is Running {
                    assert(0 <= k < k + 1 && cs[k as int].status is Running);
                }
                if running && !(agent.status is Running) && !(cs[k as int].status is Running) {
                    let m = choose|m: int| 0 <= m < k && cs[m].status is Running;
                    assert(0 <= m < k + 1 && cs[m].status is Running);
                }
            }
            k = k + 1;
        }
        if running {
            self.scroll_offset = self.max_scroll_exec();
        }
    }

    /// What the viewer shows of `total` rendered lines in `area_height`
    /// rows: the first and last+1 line shown, and a footer with the
    /// position when not everything fits.
    pub fn viewport(&self, area_height: usize, total: usize) -> (r: (usize, usize, Option<String>))
        ensures
            ({
                let max_visible: int = if area_height >= 1 { area_height - 1 } else { 0 };
                let end: int = if self@.scroll_offset + max_visible <= total { self@.scroll_offset + max_visible } else { total as int };
                &&& r.0 == self@.scroll_offset
                &&& r.1 == end
                &&& (total > max_visible) == r.2 is Some
                &&& r.2 matches Some(f) ==> f@ == "──── "@ + decimal(((end * 100) / total as int) as nat) + "% ("@
                    + decimal(end as nat) + "/"@ + decimal(total as nat) + ") ────"@
            }),
    {
        let max_visible = if area_height >= 1 { area_height - 1 } else { 0 };
        let end = if self.scroll_offset as u128 + max_visible as u128 <= total as u128 { self.scroll_offset + max_visible } else { total };
        if total > max_visible {
            assert(end <= total);
            let pct = ((end as u128) * 100) / (total as u128);
            assert(pct <= 100) by (nonlinear_arith)
                requires
                    pct as int == (end as int * 100) / (total as int),
                    end <= total,
                    total > 0,
            ;
            let a = u64_to_string(pct as u64);
            let b = u64_to_string(end as u64);
            let c = u64_to_string(total as u64);
            let f = concat("──── ", a.as_str());
            let f = concat(f.as_str(), "% (");
            let f = concat(f.as_str(), b.as_str());
            let f = concat(f.as_str(), "/");
            let f = concat(f.as_str(), c.as_str());
            let f = concat(f.as_str(), ") ────");
            (self.scroll_offset, end, Some(f))
        } else {
            (self.scroll_offset, end, None)
        }
    }
}

proof fn lemma_children_len_prefix(cs: Seq<Agent>, n: nat)
    requires
        n <= cs.len(),
    ensures
        children_output_len(cs.take(n as int)) <= children_output_len(cs),
    decreases cs.len(),
{
    if cs.len() > 0 {
        if n == cs.len() {
            assert(cs.take(n as int) =~= cs);
        } else {
            lemma_children_len_prefix(cs.drop_last(), n);
            assert(cs.drop_last().take(n as int) =~= cs.take(n as int));
        }
    }
}

impl Default for AgentViewer {
    fn default() -> (v: Self)
        ensures
            v@.scroll_offset == 0,
            v@.visible_height == 20,
            v@.lines == Seq::<Seq<char>>::empty(),
            v@.line_count == 0,
            v@.last_agent_id is None,
    {
        Self::new()
    }
}

} // verus!
