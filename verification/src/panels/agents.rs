//! The agents list: selection and scrolling over the registry's agents,
//! and the small text gauges it shows.

use vstd::prelude::*;
use crate::keys::{KeyCode, KeyEvent};
use crate::text::{decimal, push_char, push_decimal, u64_to_string, concat};
use crate::agents::Agent;
use crate::agents::types::{AgentStatus, type_icon};
use crate::ui::layout::Rect;

verus! {

/// The mathematical value of the agents list.
pub struct AgentsView {
    pub selected_index: nat,
    pub scroll_offset: nat,
    pub visible_height: nat,
}

/// State of the agents list (the agents themselves live in the registry;
/// `count` is how many it holds).
pub struct AgentsPanel {
    selected_index: usize,
    scroll_offset: usize,
    visible_height: usize,
}

impl View for AgentsPanel {
    type V = AgentsView;

    closed spec fn view(&self) -> AgentsView {
        AgentsView {
            selected_index: self.selected_index as nat,
            scroll_offset: self.scroll_offset as nat,
            visible_height: self.visible_height as nat,
        }
    }
}

/// The scroll offset that shows the selection: unchanged when it is in
/// view, otherwise moved just enough.
pub open spec fn visible_offset(sel: nat, offset: nat, height: nat) -> nat {
    if sel < offset {
        sel
    } else if sel >= offset + height {
        (sel - height + 1) as nat
    } else {
        offset
    }
}

/// What the list asks of the application.
#[derive(Debug, Clone, Copy, PartialEq, Eq, Structural)]
pub enum AgentsRequest {
    /// Nothing.
    Nothing,
    /// Show the output of the agent at this index of the display order.
    ShowAgentAt(usize),
}

/// The spinner frames.
pub open spec fn spinner_frame(i: int) -> char {
    if i == 0 { '⠋' } else if i == 1 { '⠙' } else if i == 2 { '⠹' } else if i == 3 { '⠸' }
    else if i == 4 { '⠼' } else if i == 5 { '⠴' } else if i == 6 { '⠦' } else { '⠧' }
}

/// `n` copies of `c`.
pub open spec fn repeat_char(c: char, n: nat) -> Seq<char>
    decreases n,
{
    if n == 0 { seq![] } else { repeat_char(c, (n - 1) as nat).push(c) }
}

/// The characters of the sliding bar, position `i` of `width`, with the
/// highlight at `pos`.
pub open spec fn slide_char(i: int, pos: int) -> char {
    if i == pos {
        '▓'
    } else if i == (if pos >= 1 { pos - 1 } else { 0 }) || i == pos + 1 {
        '▒'
    } else {
        '░'
    }
}

/// The position of the highlight of the sliding bar: it moves right one
/// step every 150 ms, then back.
pub open spec fn slide_pos(elapsed_ms: u128, width: nat) -> int {
    let cycle = ((elapsed_ms / 150) as usize as int) % (width * 2) as int;
    if cycle < width { cycle } else { width * 2 - cycle - 1 }
}

/// A duration in whole seconds, minutes or hours: `42s`, `3m`, `2h`.
pub open spec fn duration_text(secs: u64) -> Seq<char> {
    if secs < 60 {
        decimal(secs as nat) + "s"@
    } else if secs < 3600 {
        decimal((secs / 60) as nat) + "m"@
    } else {
        decimal((secs / 3600) as nat) + "h"@
    }
}

/// A bar of `width` cells in brackets, `progress` percent of them filled.
pub open spec fn bar_text(progress: u8, width: nat) -> Seq<char> {
    let filled = (progress as nat * width) / 100;
    let empty = if width >= filled { (width - filled) as nat } else { 0 };
    seq!['['] + repeat_char('▓', filled) + repeat_char('░', empty) + seq![']']
}

/// A bar of `width` cells in brackets with a highlight sliding back and
/// forth.
pub open spec fn sliding_text(elapsed_ms: u128, width: nat) -> Seq<char> {
    seq!['['] + Seq::new(width, |i: int| slide_char(i, slide_pos(elapsed_ms, width))) + seq![']']
}

/// The character before an agent's name: a spinner frame while it runs,
/// otherwise its status indicator.
pub open spec fn row_indicator(status: AgentStatus, shown_ms: u128) -> char {
    match status {
        AgentStatus::Running => spinner_frame(((shown_ms / 100) % 8) as int),
        AgentStatus::Pending => '⏳',
        AgentStatus::Completed => '✓',
        AgentStatus::Error(_) => '✗',
        AgentStatus::Cancelled => '⊘',
        AgentStatus::Idle => '💤',
    }
}

/// The number of output lines, as `12L`; nothing when there are none.
pub open spec fn line_count_text(n: usize) -> Seq<char> {
    if n > 0 { decimal(n as nat) + "L"@ } else { Seq::empty() }
}

/// The stats line of an agent's row: the time shown (whole seconds of
/// `shown_ms`), the token count as given, the line count, and a gauge:
/// the progress bar where the agent reports progress, else a sliding bar
/// while it runs.
pub open spec fn stats_text(agent: Agent, shown_ms: u128, tokens: Seq<char>) -> Seq<char> {
    let head = "  ⏱"@ + duration_text((shown_ms / 1000) as u64) + " ◇"@ + tokens + " "@
        + line_count_text(agent.line_count);
    match agent.progress {
        Some(p) => head + " "@ + bar_text(p, 8),
        None => if agent.status is Running { head + " "@ + sliding_text(shown_ms, 8) } else { head },
    }
}

/// The title of the agents list: running and total while some run.
pub open spec fn agents_title_text(running: usize, total: usize) -> Seq<char> {
    if running > 0 {
        " Agents ("@ + decimal(running as nat) + "/"@ + decimal(total as nat) + ") "@
    } else {
        " Agents ("@ + decimal(total as nat) + ") "@
    }
}

/// The title of the agents list: ` Agents (2/5) ` while two of five run,
/// ` Agents (5) ` otherwise.
pub fn agents_title(running: usize, total: usize) -> (s: String)
    ensures
        s@ == agents_title_text(running, total),
{
    let t = u64_to_string(total as u64);
    if running > 0 {
        let r = u64_to_string(running as u64);
        let a = concat(" Agents (", r.as_str());
        let b = concat(a.as_str(), "/");
        let c = concat(b.as_str(), t.as_str());
        concat(c.as_str(), ") ")
    } else {
        let a = concat(" Agents (", t.as_str());
        concat(a.as_str(), ") ")
    }
}

/// The text of an agent's row in the list: the indicator, the type icon
/// with the name, and the stats line. `shown_ms` is the time shown (the
/// run's length once it ended, else the time since it started) and
/// `tokens` the token count as displayed.
pub fn agent_row(agent: &Agent, shown_ms: u128, tokens: &str) -> (r: (char, String, String))
    requires
        shown_ms / 1000 <= u64::MAX,
    ensures
        r.0 == row_indicator(agent.status, shown_ms),
        r.1@ == type_icon(agent.agent_type) + " "@ + agent.name@,
        r.2@ == stats_text(*agent, shown_ms, tokens@),
{
    let indicator = if agent.status.is_running() {
        AgentsPanel::spinner(shown_ms)
    } else {
        let text = agent.status.indicator();
        proof {
            reveal_strlit("⏳");
            reveal_strlit("⚡");
            reveal_strlit("✓");
            reveal_strlit("✗");
            reveal_strlit("⊘");
            reveal_strlit("💤");
        }
        text.get_char(0)
    };
    let icon = agent.agent_type.icon();
    let spaced = concat(icon, " ");
    let name = concat(spaced.as_str(), agent.name.as_str());
    let secs: u64 = (shown_ms / 1000) as u64;
    let duration = AgentsPanel::format_duration(secs);
    let lines = if agent.line_count > 0 {
        let n = u64_to_string(agent.line_count as u64);
        concat(n.as_str(), "L")
    } else {
        String::new()
    };
    let a = concat("  ⏱", duration.as_str());
    let b = concat(a.as_str(), " ◇");
    let c = concat(b.as_str(), tokens);
    let d = concat(c.as_str(), " ");
    let head = concat(d.as_str(), lines.as_str());
    let stats = match agent.progress {
        Some(p) => {
            let bar = AgentsPanel::mini_progress_bar(p, 8);
            let e = concat(head.as_str(), " ");
            concat(e.as_str(), bar.as_str())
        },
        None => if agent.status.is_running() {
            let bar = AgentsPanel::animated_bar(shown_ms, 8);
            let e = concat(head.as_str(), " ");
            concat(e.as_str(), bar.as_str())
        } else {
            head
        },
    };
    proof {
        reveal_strlit(" ");
        reveal_strlit("L");
    }
    (indicator, name, stats)
}

impl AgentsPanel {
    /// Top of the list, 20 rows high.
    pub fn new() -> (p: Self)
        ensures
            p@.selected_index == 0,
            p@.scroll_offset == 0,
            p@.visible_height == 20,
    {
        AgentsPanel { selected_index: 0, scroll_offset: 0, visible_height: 20 }
    }

    /// The selected index.
    pub fn selected_index(&self) -> (i: usize)
        ensures
            i == self@.selected_index,
    {
        self.selected_index
    }

    /// The scroll offset.
    pub fn scroll_offset(&self) -> (i: usize)
        ensures
            i == self@.scroll_offset,
    {
        self.scroll_offset
    }

    /// The number of agents that fit.
    pub fn visible_height(&self) -> (h: usize)
        ensures
            h == self@.visible_height,
    {
        self.visible_height
    }

    /// Set the selection, the offset and the height directly.
    pub fn set_view(&mut self, selected_index: usize, scroll_offset: usize, visible_height: usize)
        ensures
            final(self)@ == (AgentsView {
                selected_index: selected_index as nat,
                scroll_offset: scroll_offset as nat,
                visible_height: visible_height as nat,
            }),
    {
        self.selected_index = selected_index;
        self.scroll_offset = scroll_offset;
        self.visible_height = visible_height;
    }

    /// Scroll so that the selection is visible.
    pub fn ensure_visible(&mut self)
        requires
            old(self)@.selected_index < usize::MAX,
        ensures
            final(self)@ == (AgentsView {
                scroll_offset: visible_offset(old(self)@.selected_index, old(self)@.scroll_offset, old(self)@.visible_height),
                ..old(self)@
            }),
    {
        if self.selected_index < self.scroll_offset {
            self.scroll_offset = self.selected_index;
        } else if self.selected_index as u128 >= self.scroll_offset as u128 + self.visible_height as u128 {
            self.scroll_offset = self.selected_index - self.visible_height + 1;
        }
    }

    /// Select the previous agent (of `count`), keep it visible, and show it.
    pub fn select_prev(&mut self, count: usize) -> (r: AgentsRequest)
        requires
            old(self)@.selected_index < usize::MAX,
        ensures
            count == 0 ==> final(self)@ == old(self)@ && r == AgentsRequest::Nothing,
            count > 0 ==> {
                let sel = if old(self)@.selected_index > 0 { (old(self)@.selected_index - 1) as nat } else { 0 };
                &&& final(self)@ == (AgentsView {
                    selected_index: sel,
                    scroll_offset: visible_offset(sel, old(self)@.scroll_offset, old(self)@.visible_height),
                    ..old(self)@
                })
                &&& r == AgentsRequest::ShowAgentAt(sel as usize)
            },
    {
        if count == 0 {
            return AgentsRequest::Nothing;
        }
        if self.selected_index > 0 {
            self.selected_index = self.selected_index - 1;
        }
        self.ensure_visible();
        AgentsRequest::ShowAgentAt(self.selected_index)
    }

    /// Select the next agent (of `count`), keep it visible, and show it.
    pub fn select_next(&mut self, count: usize) -> (r: AgentsRequest)
        requires
            old(self)@.selected_index < usize::MAX,
        ensures
            count == 0 ==> final(self)@ == old(self)@ && r == AgentsRequest::Nothing,
            count > 0 ==> {
                let sel = if old(self)@.selected_index < count - 1 { old(self)@.selected_index + 1 } else { old(self)@.selected_index };
                &&& final(self)@ == (AgentsView {
                    selected_index: sel,
                    scroll_offset: visible_offset(sel, old(self)@.scroll_offset, old(self)@.visible_height),
                    ..old(self)@
                })
                &&& r == AgentsRequest::ShowAgentAt(sel as usize)
            },
    {
        if count == 0 {
            return AgentsRequest::Nothing;
        }
        if self.selected_index < count - 1 {
            self.selected_index = self.selected_index + 1;
        }
        if self.selected_index < usize::MAX {
            self.ensure_visible();
        }
        AgentsRequest::ShowAgentAt(self.selected_index)
    }

    /// A click on list row `row` (each agent takes two rows): the agent
    /// there is selected and shown, if there is one.
    pub fn select_at_row(&mut self, row: usize, count: usize) -> (r: AgentsRequest)
        ensures
            ({
                let idx = old(self)@.scroll_offset + row / 2;
                if idx < count {
                    final(self)@ == (AgentsView { selected_index: idx as nat, ..old(self)@ })
                        && r == AgentsRequest::ShowAgentAt(idx as usize)
                } else {
                    final(self)@ == old(self)@ && r == AgentsRequest::Nothing
                }
            }),
    {
        let idx = self.scroll_offset as u128 + (row / 2) as u128;
        if idx < count as u128 {
            self.selected_index = idx as usize;
            AgentsRequest::ShowAgentAt(self.selected_index)
        } else {
            AgentsRequest::Nothing
        }
    }

    /// A click at row `y` of the screen on the list area `list`: on one of
    /// its rows, the agent shown there is selected and shown (each agent
    /// takes two rows); elsewhere nothing happens.
    pub fn click_row(&mut self, y: u16, list: Rect, count: usize) -> (r: AgentsRequest)
        ensures
            ({
                let idx = old(self)@.scroll_offset + (y - list.y) / 2;
                if list.y <= y && y < list.y + list.height && idx < count {
                    final(self)@ == (AgentsView { selected_index: idx as nat, ..old(self)@ })
                        && r == AgentsRequest::ShowAgentAt(idx as usize)
                } else {
                    final(self)@ == old(self)@ && r == AgentsRequest::Nothing
                }
            }),
    {
        if list.y <= y && (y as u32) < list.y as u32 + list.height as u32 {
            let row = (y - list.y) as usize;
            self.select_at_row(row, count)
        } else {
            AgentsRequest::Nothing
        }
    }

    /// Scroll the list up by three rows.
    pub fn wheel_up(&mut self)
        ensures
            final(self)@ == (AgentsView {
                scroll_offset: if old(self)@.scroll_offset >= 3 { (old(self)@.scroll_offset - 3) as nat } else { 0 },
                ..old(self)@
            }),
    {
        self.scroll_offset = if self.scroll_offset >= 3 { self.scroll_offset - 3 } else { 0 };
    }

    /// Scroll the list down by three rows, no further than showing the last
    /// agents.
    pub fn wheel_down(&mut self, count: usize)
        ensures
            ({
                let max = if count >= old(self)@.visible_height { (count - old(self)@.visible_height) as nat } else { 0 };
                let next = old(self)@.scroll_offset + 3;
                final(self)@ == (AgentsView { scroll_offset: if next <= max { next } else { max }, ..old(self)@ })
            }),
    {
        let max = if count >= self.visible_height { count - self.visible_height } else { 0 };
        let next = self.scroll_offset as u128 + 3;
        self.scroll_offset = if next <= max as u128 { next as usize } else { max };
    }

    /// New panel height: each agent takes two rows, inside the borders.
    pub fn on_resize(&mut self, rows: u16)
        ensures
            final(self)@ == (AgentsView {
                visible_height: (if rows >= 2 { (rows - 2) / 2 } else { 0 }) as nat,
                ..old(self)@
            }),
    {
        self.visible_height = (if rows >= 2 { (rows - 2) / 2 } else { 0 }) as usize;
    }

    /// Handle a key with `count` agents listed: Up/`k` and Down/`j` move,
    /// Enter shows the selection, Home goes to the first, End to the last.
    pub fn handle_key(&mut self, key: &KeyEvent, count: usize) -> (out: (bool, AgentsRequest))
        requires
            old(self)@.selected_index < usize::MAX,
        ensures
            out.0 == match key.code {
                KeyCode::Up | KeyCode::Down | KeyCode::Enter | KeyCode::Home | KeyCode::End => true,
                KeyCode::Char(c) => c == 'k' || c == 'j',
                _ => false,
            },
            key.code == KeyCode::Enter ==> final(self)@ == old(self)@
                && out.1 == AgentsRequest::ShowAgentAt(old(self)@.selected_index as usize),
            key.code == KeyCode::Home ==> final(self)@ == (AgentsView { selected_index: 0, scroll_offset: 0, ..old(self)@ })
                && out.1 == AgentsRequest::ShowAgentAt(0),
            key.code == KeyCode::End && count > 0 ==> final(self)@ == (AgentsView {
                    selected_index: (count - 1) as nat,
                    scroll_offset: visible_offset((count - 1) as nat, old(self)@.scroll_offset, old(self)@.visible_height),
                    ..old(self)@
                }) && out.1 == AgentsRequest::ShowAgentAt((count - 1) as usize),
            key.code == KeyCode::End && count == 0 ==> final(self)@ == old(self)@ && out.1 == AgentsRequest::Nothing,
            (key.code == KeyCode::Up || key.code == KeyCode::Char('k')) && count > 0 ==>
                final(self)@.selected_index == (if old(self)@.selected_index > 0 { (old(self)@.selected_index - 1) as nat } else { 0 }),
            (key.code == KeyCode::Down || key.code == KeyCode::Char('j')) && count > 0 ==>
                final(self)@.selected_index == (if old(self)@.selected_index < count - 1 { old(self)@.selected_index + 1 } else { old(self)@.selected_index }),
    {
        match key.code {
            KeyCode::Up => (true, self.select_prev(count)),
            KeyCode::Down => (true, self.select_next(count)),
            KeyCode::Char(c) => {
                if c == 'k' {
                    (true, self.select_prev(count))
                } else if c == 'j' {
                    (true, self.select_next(count))
                } else {
                    (false, AgentsRequest::Nothing)
                }
            },
            KeyCode::Enter => (true, AgentsRequest::ShowAgentAt(self.selected_index)),
            KeyCode::Home => {
                self.selected_index = 0;
                self.scroll_offset = 0;
                (true, AgentsRequest::ShowAgentAt(0))
            },
            KeyCode::End => {
                if count > 0 {
                    self.selected_index = count - 1;
                    self.ensure_visible();
                    (true, AgentsRequest::ShowAgentAt(count - 1))
                } else {
                    (true, AgentsRequest::Nothing)
                }
            },
            _ => (false, AgentsRequest::Nothing),
        }
    }

    /// A duration in whole seconds, minutes or hours: `42s`, `3m`, `2h`.
    pub fn format_duration(secs: u64) -> (s: String)
        ensures
            s@ == duration_text(secs),
    {
        if secs < 60 {
            let n = u64_to_string(secs);
            concat(n.as_str(), "s")
        } else if secs < 3600 {
            let n = u64_to_string(secs / 60);
            concat(n.as_str(), "m")
        } else {
            let n = u64_to_string(secs / 3600);
            concat(n.as_str(), "h")
        }
    }

    /// A spinner character that changes every 100 ms.
    pub fn spinner(elapsed_ms: u128) -> (c: char)
        ensures
            c == spinner_frame(((elapsed_ms / 100) % 8) as int),
    {
        let i = (elapsed_ms / 100) % 8;
        if i == 0 { '⠋' } else if i == 1 { '⠙' } else if i == 2 { '⠹' } else if i == 3 { '⠸' }
        else if i == 4 { '⠼' } else if i == 5 { '⠴' } else if i == 6 { '⠦' } else { '⠧' }
    }

    /// A bar of `width` cells, `progress` percent of them filled.
    pub fn mini_progress_bar(progress: u8, width: usize) -> (s: String)
        requires
            progress as int * width as int <= usize::MAX,
        ensures
            s@ == bar_text(progress, width as nat),
    {
        let filled = ((progress as usize) * width) / 100;
        let empty = if width >= filled { width - filled } else { 0 };
        let mut s = String::new();
        push_char(&mut s, '[');
        let mut i: usize = 0;
        while i < filled
            invariant
                i <= filled,
                s@ == seq!['['] + repeat_char('▓', i as nat),
            decreases filled - i,
        {
            push_char(&mut s, '▓');
            i = i + 1;
        }
        let mut j: usize = 0;
        while j < empty
            invariant
                j <= empty,
                s@ == seq!['['] + repeat_char('▓', filled as nat) + repeat_char('░', j as nat),
            decreases empty - j,
        {
            push_char(&mut s, '░');
            assert(s@ =~= seq!['['] + repeat_char('▓', filled as nat) + repeat_char('░', (j + 1) as nat));
            j = j + 1;
        }
        push_char(&mut s, ']');
        s
    }

    /// A bar of `width` cells with a highlight sliding back and forth
    /// (one step per 150 ms) and its neighbours half lit.
    pub fn animated_bar(elapsed_ms: u128, width: usize) -> (s: String)
        requires
            0 < width,
            width * 2 <= usize::MAX,
        ensures
            s@.len() == width + 2,
            s@[0] == '[',
            s@[width + 1] == ']',
            forall|i: int| 0 <= i < width ==> #[trigger] s@[i + 1] == slide_char(i, slide_pos(elapsed_ms, width as nat)),
            s@ == sliding_text(elapsed_ms, width as nat),
    {
        let steps = elapsed_ms / 150;
        let cycle = (steps as usize) % (width * 2);
        let pos = if cycle < width { cycle } else { width * 2 - cycle - 1 };
        let before = if pos >= 1 { pos - 1 } else { 0 };
        let mut s = String::new();
        push_char(&mut s, '[');
        let mut i: usize = 0;
        while i < width
            invariant
                i <= width,
                width * 2 <= usize::MAX,
                pos as int == slide_pos(elapsed_ms, width as nat),
                before == (if pos >= 1 { pos - 1 } else { 0 }),
                s@.len() == i + 1,
                s@[0] == '[',
                forall|k: int| 0 <= k < i ==> #[trigger] s@[k + 1] == slide_char(k, pos as int),
            decreases width - i,
        {
            let c = if i == pos { '▓' } else if i == before || i == pos + 1 { '▒' } else { '░' };
            push_char(&mut s, c);
            i = i + 1;
        }
        push_char(&mut s, ']');
        assert(s@ =~= sliding_text(elapsed_ms, width as nat)) by {
            assert forall|k: int| 0 <= k < s@.len() implies #[trigger] s@[k] == sliding_text(elapsed_ms, width as nat)[k] by {
                if 1 <= k <= width {
                    assert(s@[(k - 1) + 1] == slide_char(k - 1, pos as int));
                }
            }
        }
        s
    }
}

} // verus!
