//! Panel arrangement: a three-column layout (file tree, output over input,
//! agents) above a one-line status bar, and hit testing on it.

use vstd::prelude::*;
use crate::state::focus::PanelId;
use ratatui::layout::{Constraint, Direction, Layout, Rect as TRect};

verus! {

/// A rectangle on the screen, in terminal cells.
#[derive(Debug, Clone, Copy, PartialEq, Eq, Structural)]
pub struct Rect {
    pub x: u16,
    pub y: u16,
    pub width: u16,
    pub height: u16,
}

/// `a + b`, saturated at the largest `u16`.
pub open spec fn sat_add(a: u16, b: u16) -> int {
    if a + b > u16::MAX { u16::MAX as int } else { a + b }
}

/// Whether the cell `(x, y)` lies inside `r` (its right and bottom edges
/// saturate at the largest coordinate).
pub open spec fn rect_contains(r: Rect, x: u16, y: u16) -> bool {
    &&& x >= r.x
    &&& x < sat_add(r.x, r.width)
    &&& y >= r.y
    &&& y < sat_add(r.y, r.height)
}

impl Rect {
    /// A rectangle at `(x, y)` of the given size.
    pub fn new(x: u16, y: u16, width: u16, height: u16) -> (r: Rect)
        ensures
            r == (Rect { x, y, width, height }),
    {
        Rect { x, y, width, height }
    }

    /// Whether the cell `(x, y)` lies inside.
    pub fn contains(&self, x: u16, y: u16) -> (b: bool)
        ensures
            b == rect_contains(*self, x, y),
    {
        let right: u32 = if (self.x as u32) + (self.width as u32) > 0xffff {
            0xffff
        } else {
            (self.x as u32) + (self.width as u32)
        };
        let bottom: u32 = if (self.y as u32) + (self.height as u32) > 0xffff {
            0xffff
        } else {
            (self.y as u32) + (self.height as u32)
        };
        x >= self.x && (x as u32) < right && y >= self.y && (y as u32) < bottom
    }
}

/// A size constraint for one part of a split.
#[derive(Debug, Clone, Copy, PartialEq, Eq, Structural)]
pub enum LayoutConstraint {
    /// At least this many cells.
    Min(u16),
    /// Exactly this many cells.
    Length(u16),
    /// This percentage of the area.
    Percentage(u16),
}

/// The direction in which an area is split.
#[derive(Debug, Clone, Copy, PartialEq, Eq, Structural)]
pub enum SplitDirection {
    Horizontal,
    Vertical,
}

/// The width of `area` that fits on the screen: cut at the largest
/// column, as ratatui's `Rect::new` cuts it.
pub open spec fn fit_width(a: Rect) -> int {
    if a.width <= u16::MAX - a.x { a.width as int } else { u16::MAX - a.x }
}

/// The height of `area` that fits on the screen: cut at the largest row.
pub open spec fn fit_height(a: Rect) -> int {
    if a.height <= u16::MAX - a.y { a.height as int } else { u16::MAX - a.y }
}

/// `p` is a part of a split of `area` along `d`: across the split it takes
/// the whole area; along it, it lies within the area.
pub open spec fn part_of(p: Rect, area: Rect, d: SplitDirection) -> bool {
    match d {
        SplitDirection::Horizontal => p.y == area.y && p.height == fit_height(area)
            && p.x >= area.x && p.x + p.width <= area.x + fit_width(area),
        SplitDirection::Vertical => p.x == area.x && p.width == fit_width(area)
            && p.y >= area.y && p.y + p.height <= area.y + fit_height(area),
    }
}

/// Splits `area` with ratatui's `Layout::split` (no margin). Trusted: one
/// part for each constraint (the source builds one segment per
/// constraint); each part takes the whole area, cut to the screen, across
/// the split (`changes_to_rects` copies the area's other coordinate and
/// size), and lies within it along the split (the solver's required
/// constraints keep every start and end between the area's ends). Where
/// the parts fall along the split is not stated: the solver walks hash maps
/// seeded per process, so where the optimum is not unique, or a sum falls
/// on a rounding boundary, two processes may get different parts.
#[verifier::external_body]
fn split_area(area: Rect, direction: SplitDirection, constraints: &Vec<LayoutConstraint>) -> (r: Vec<Rect>)
    ensures
        r@.len() == constraints@.len(),
        forall|i: int| 0 <= i < r@.len() ==> part_of(#[trigger] r@[i], area, direction),
{
    let d = match direction {
        SplitDirection::Horizontal => Direction::Horizontal,
        SplitDirection::Vertical => Direction::Vertical,
    };
    let cs: Vec<Constraint> = constraints.iter().map(|c| match *c {
        LayoutConstraint::Min(n) => Constraint::Min(n),
        LayoutConstraint::Length(n) => Constraint::Length(n),
        LayoutConstraint::Percentage(n) => Constraint::Percentage(n),
    }).collect();
    let a = TRect::new(area.x, area.y, area.width, area.height);
    let parts = Layout::default().direction(d).constraints(cs).split(a);
    parts.iter().map(|p| Rect { x: p.x, y: p.y, width: p.width, height: p.height }).collect()
}

/// Panel areas.
#[derive(Debug, Clone, Copy, PartialEq, Eq, Structural)]
pub struct AppLayout {
    /// Left: the file tree (20%).
    pub file_tree: Rect,
    /// Center top: file or agent output.
    pub output: Rect,
    /// Center bottom: the command input.
    pub input: Rect,
    /// Right: the agents list (20%).
    pub agents: Rect,
    /// Bottom line: the status bar.
    pub status: Rect,
}

/// Height of the input area: larger while the input panel has focus.
pub open spec fn input_height(focused: Option<PanelId>) -> u16 {
    if focused == Some(PanelId(2)) { 6 } else { 3 }
}

/// Height of the input area: six lines while the input panel has focus,
/// three otherwise.
pub fn input_height_for(focused: Option<PanelId>) -> (h: u16)
    ensures
        h == input_height(focused),
{
    match focused {
        Some(p) => if p.0 == 2 { 6 } else { 3 },
        None => 3,
    }
}

/// The layout `l` is made of these splits of `area`: the content band and
/// the status bar stacked in it; the file tree, the middle column and the
/// agents side by side in the content band; the output and the input
/// stacked in the middle column.
pub open spec fn layout_fits(l: AppLayout, area: Rect, content: Rect, middle: Rect) -> bool {
    &&& part_of(content, area, SplitDirection::Vertical)
    &&& part_of(l.status, area, SplitDirection::Vertical)
    &&& part_of(l.file_tree, content, SplitDirection::Horizontal)
    &&& part_of(middle, content, SplitDirection::Horizontal)
    &&& part_of(l.agents, content, SplitDirection::Horizontal)
    &&& part_of(l.output, middle, SplitDirection::Vertical)
    &&& part_of(l.input, middle, SplitDirection::Vertical)
}

/// The layout with no panel given focus: the content area over a one-line
/// status bar; the content split 20% | 60% | 20% into the file tree, the
/// middle and the agents; the middle split into the output over an input
/// three lines high. The solver decides where the parts fall; the status
/// bar and the content band span the screen's width, the three columns
/// share the band's rows, and the output and the input share the middle
/// column's columns.
pub fn get_layout(area: Rect) -> (l: AppLayout)
    ensures
        exists|content: Rect, middle: Rect| #[trigger] layout_fits(l, area, content, middle),
{
    get_layout_with_focus(area, None)
}

/// The layout, with the input area six lines high while the input panel
/// has focus (`input_height`). The solver decides where the parts fall;
/// how they fit together is `layout_fits`.
pub fn get_layout_with_focus(area: Rect, focused: Option<PanelId>) -> (l: AppLayout)
    ensures
        exists|content: Rect, middle: Rect| #[trigger] layout_fits(l, area, content, middle),
{
    let main_cs: Vec<LayoutConstraint> = vec![LayoutConstraint::Min(10), LayoutConstraint::Length(1)];
    let main = split_area(area, SplitDirection::Vertical, &main_cs);
    let col_cs: Vec<LayoutConstraint> = vec![
        LayoutConstraint::Percentage(20),
        LayoutConstraint::Percentage(60),
        LayoutConstraint::Percentage(20),
    ];
    let cols = split_area(main[0], SplitDirection::Horizontal, &col_cs);
    let h = input_height_for(focused);
    let mid_cs: Vec<LayoutConstraint> = vec![LayoutConstraint::Min(5), LayoutConstraint::Length(h)];
    let mid = split_area(cols[1], SplitDirection::Vertical, &mid_cs);
    let l = AppLayout { file_tree: cols[0], output: mid[0], input: mid[1], agents: cols[2], status: main[1] };
    assert(part_of(main@[0], area, SplitDirection::Vertical) && part_of(main@[1], area, SplitDirection::Vertical));
    assert(part_of(cols@[0], main@[0], SplitDirection::Horizontal) && part_of(cols@[1], main@[0], SplitDirection::Horizontal)
        && part_of(cols@[2], main@[0], SplitDirection::Horizontal));
    assert(part_of(mid@[0], cols@[1], SplitDirection::Vertical) && part_of(mid@[1], cols@[1], SplitDirection::Vertical));
    assert(layout_fits(l, area, main@[0], cols@[1]));
    l
}

/// The panel under `(x, y)`: file tree, output, input, agents, in that
/// order of testing.
pub open spec fn panel_under(l: AppLayout, x: u16, y: u16) -> Option<PanelId> {
    if rect_contains(l.file_tree, x, y) {
        Some(PanelId(0))
    } else if rect_contains(l.output, x, y) {
        Some(PanelId(1))
    } else if rect_contains(l.input, x, y) {
        Some(PanelId(2))
    } else if rect_contains(l.agents, x, y) {
        Some(PanelId(3))
    } else {
        None
    }
}

impl AppLayout {
    /// The panel that contains the cell `(x, y)`, if any.
    pub fn panel_at(&self, x: u16, y: u16) -> (p: Option<PanelId>)
        ensures
            p == panel_under(*self, x, y),
    {
        if self.file_tree.contains(x, y) {
            Some(PanelId::file_tree())
        } else if self.output.contains(x, y) {
            Some(PanelId::output())
        } else if self.input.contains(x, y) {
            Some(PanelId::input())
        } else if self.agents.contains(x, y) {
            Some(PanelId::agents())
        } else {
            None
        }
    }
}

} // verus!
