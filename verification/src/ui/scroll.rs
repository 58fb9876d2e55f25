//! Scroll bar state.

use vstd::prelude::*;
use crate::text::{concat, decimal, u64_to_string};
use crate::ui::layout::Rect;

verus! {

/// Scroll bar state.
#[derive(Debug, Clone, Copy)]
pub struct ScrollBar {
    /// Current scroll position (0-indexed).
    pub current: usize,
    /// Number of visible items.
    pub visible: usize,
    /// Total number of items.
    pub total: usize,
    /// Whether the content is scrollable.
    pub scrollable: bool,
}

impl ScrollBar {
    /// A scroll bar at `current`, scrollable when there are more items than
    /// fit.
    pub fn new(current: usize, visible: usize, total: usize) -> (s: Self)
        ensures
            s.current == current,
            s.visible == visible,
            s.total == total,
            s.scrollable == (total > visible),
    {
        ScrollBar { current, visible, total, scrollable: total > visible }
    }

    /// Whether the view shows the last item (always, when nothing scrolls).
    pub fn at_bottom(&self) -> (b: bool)
        ensures
            b == (!self.scrollable || self.current + self.visible >= self.total),
    {
        if !self.scrollable {
            return true;
        }
        self.current as u128 + self.visible as u128 >= self.total as u128
    }
}

/// Whether content of `total` items scrolls in a view of `visible`.
pub fn is_scrollable(visible: usize, total: usize) -> (b: bool)
    ensures
        b == (total > visible),
{
    total > visible
}

impl ScrollBar {
    /// Whether `(x, y)` is the down arrow under the bar (the bottom-right
    /// cell of `area`); never when nothing scrolls or the area is less
    /// than three rows high.
    pub fn is_arrow_click(&self, x: u16, y: u16, area: Rect) -> (b: bool)
        requires
            self.scrollable && area.height >= 3 ==> 1 <= area.width && area.x + area.width <= u16::MAX
                && area.y + area.height <= u16::MAX,
        ensures
            b == (self.scrollable && area.height >= 3 && x == area.x + area.width - 1 && y == area.y + area.height - 1),
    {
        if !self.scrollable || area.height < 3 {
            return false;
        }
        let bar_x = area.x + area.width - 1;
        let arrow_y = area.y + area.height - 1;
        x == bar_x && y == arrow_y
    }

    /// Where a click on the bar's track falls, the thumb covering rows
    /// `thumb_pos` to `thumb_pos + thumb_size` from the top: `Some(true)`
    /// above it (a page up), `Some(false)` below it (a page down), nothing
    /// on it, off the bar's column, on the arrow row or below, or when
    /// nothing scrolls. (A click above the area on the bar's column has no
    /// row.)
    pub fn track_click(&self, x: u16, y: u16, area: Rect, thumb_pos: usize, thumb_size: usize) -> (r: Option<bool>)
        requires
            self.scrollable && area.height >= 3 ==> 1 <= area.width && area.x + area.width <= u16::MAX
                && area.y + area.height <= u16::MAX,
            self.scrollable && area.height >= 3 && x == area.x + area.width - 1 && y < area.y + area.height - 1
                ==> y >= area.y,
            thumb_pos + thumb_size <= usize::MAX,
        ensures
            r == (if !self.scrollable || area.height < 3 || x != area.x + area.width - 1
                || y >= area.y + area.height - 1 {
                None
            } else if ((y - area.y) as int) < thumb_pos {
                Some(true)
            } else if ((y - area.y) as int) >= thumb_pos + thumb_size {
                Some(false)
            } else {
                None
            }),
    {
        if !self.scrollable || area.height < 3 {
            return None;
        }
        let bar_x = area.x + area.width - 1;
        let arrow_y = area.y + area.height - 1;
        if x != bar_x || y >= arrow_y {
            return None;
        }
        let click_pos = (y - area.y) as usize;
        if click_pos < thumb_pos {
            Some(true)
        } else if click_pos >= thumb_pos + thumb_size {
            Some(false)
        } else {
            None
        }
    }
}

/// `min(a, b)`.
pub open spec fn min_nat(a: int, b: int) -> int {
    if a <= b { a } else { b }
}

/// The position shown for a scrolled view: ` [first-last/total] p%`, the
/// first line counted from 1 and the last capped at the total, with the
/// percentage `percent` given; nothing when everything fits.
pub fn scroll_indicator(current: usize, visible: usize, total: usize, percent: usize) -> (s: String)
    requires
        total > visible ==> current < usize::MAX && current + visible <= usize::MAX,
    ensures
        total <= visible ==> s@ == Seq::<char>::empty(),
        total > visible ==> s@ == " ["@ + decimal((current + 1) as nat) + "-"@
            + decimal(min_nat(current + visible, total as int) as nat) + "/"@ + decimal(total as nat) + "] "@
            + decimal(percent as nat) + "%"@,
{
    if total <= visible {
        return String::new();
    }
    let start = current + 1;
    let end = if current + visible < total { current + visible } else { total };
    let s = concat(" [", u64_to_string(start as u64).as_str());
    let s = concat(s.as_str(), "-");
    let s = concat(s.as_str(), u64_to_string(end as u64).as_str());
    let s = concat(s.as_str(), "/");
    let s = concat(s.as_str(), u64_to_string(total as u64).as_str());
    let s = concat(s.as_str(), "] ");
    let s = concat(s.as_str(), u64_to_string(percent as u64).as_str());
    concat(s.as_str(), "%")
}

/// The percentage shown for a scrolled view: ` p%`, `percent` capped at
/// 100; nothing when everything fits.
pub fn scroll_percent(visible: usize, total: usize, percent: usize) -> (s: String)
    ensures
        total <= visible ==> s@ == Seq::<char>::empty(),
        total > visible ==> s@ == " "@ + decimal(min_nat(percent as int, 100) as nat) + "%"@,
{
    if total <= visible {
        return String::new();
    }
    let p = if percent < 100 { percent } else { 100 };
    let s = concat(" ", u64_to_string(p as u64).as_str());
    concat(s.as_str(), "%")
}

/// The cells of a scroll bar `height` rows high, the thumb (`█`) covering
/// rows `thumb_pos` to `thumb_pos + thumb_size`, the track (`░`) the rest;
/// none when everything fits or the bar has no height.
pub fn scrollbar_chars(visible: usize, total: usize, height: usize, thumb_pos: usize, thumb_size: usize)
    -> (r: Vec<(usize, char)>)
    requires
        thumb_pos + thumb_size <= usize::MAX,
    ensures
        (total <= visible || height == 0) ==> r@.len() == 0,
        !(total <= visible || height == 0) ==> r@.len() == height
            && forall|i: int| 0 <= i < height ==> (#[trigger] r@[i]) == (i as usize,
                if thumb_pos <= i < thumb_pos + thumb_size { '█' } else { '░' }),
{
    let mut r: Vec<(usize, char)> = Vec::new();
    if total <= visible || height == 0 {
        return r;
    }
    let mut i: usize = 0;
    while i < height
        invariant
            i <= height,
            thumb_pos + thumb_size <= usize::MAX,
            r@.len() == i,
            forall|k: int| 0 <= k < i ==> (#[trigger] r@[k]) == (k as usize,
                if thumb_pos <= k < thumb_pos + thumb_size { '█' } else { '░' }),
        decreases height - i,
    {
        let c = if i >= thumb_pos && i < thumb_pos + thumb_size { '█' } else { '░' };
        r.push((i, c));
        i = i + 1;
    }
    r
}

} // verus!
