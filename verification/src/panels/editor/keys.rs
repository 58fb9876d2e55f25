//! Which editor action a key press asks for.

use vstd::prelude::*;
use crate::keys::{KeyCode, KeyEvent};
use super::buffer::{
    Direction, FileTab, same_but_view, last_line, visible_scroll, char_inserted, line_split, backspaced,
    deleted_forward, moved_cursor,
};
use super::{EditorPanel, EditorView, sel_range, sel_deletes, selection_deletable, selection_deleted};
use super::selection::pos_le;

verus! {

/// What a key asks the editor to do.
#[derive(Debug, Clone, Copy, PartialEq, Eq, Structural)]
pub enum EditorAction {
    /// Switch to the next tab.
    NextTab,
    /// Switch to the previous tab.
    PrevTab,
    /// Close the active tab.
    CloseTab,
    /// Switch to the tab with this 1-based number (Alt and a digit).
    SwitchTab(u32),
    /// Copy the selection to the clipboard.
    Copy,
    /// Cut the selection to the clipboard.
    Cut,
    /// Paste from the clipboard.
    Paste,
    /// Undo the last edit.
    Undo,
    /// Redo the last undone edit.
    Redo,
    /// Scroll a page up, keeping the cursor in view.
    PageUp,
    /// Scroll a page down, keeping the cursor in view.
    PageDown,
    /// Scroll one line up.
    ScrollUp,
    /// Scroll one line down.
    ScrollDown,
    /// Scroll one column left.
    ScrollLeft,
    /// Scroll one column right.
    ScrollRight,
    /// Move the cursor.
    Move(Direction),
    /// Scroll half a page up.
    HalfPageUp,
    /// Scroll half a page down.
    HalfPageDown,
    /// Go to the beginning of the file.
    GoTop,
    /// Go to the last line.
    GoBottom,
    /// Type a character (over the selection, if any).
    TypeChar(char),
    /// Delete backwards (or the selection).
    Backspace,
    /// Delete forwards (or the selection).
    Delete,
    /// Break the line (over the selection, if any).
    Enter,
    /// Move the cursor, extending the selection when Shift is held.
    SelectMove(bool, Direction),
    /// Go to the start of the line, extending the selection when Shift is
    /// held.
    LineStart(bool),
    /// Go to the end of the line, extending the selection when Shift is
    /// held.
    LineEnd(bool),
    /// Clear the selection; the key is left to the caller (mode change).
    Escape,
    /// Not an editor key.
    Ignore,
}

/// The value of an ASCII digit.
pub open spec fn digit_value(c: char) -> u32 {
    (c as u32 - '0' as u32) as u32
}

/// The action a key asks for: tab, clipboard, undo and page keys in every
/// mode; vim-style navigation and scrolling outside insert mode; editing
/// and shift-selection in insert mode.
pub open spec fn key_action(key: KeyEvent, editing: bool) -> EditorAction {
    let m = key.modifiers;
    match key.code {
        KeyCode::Char(c) if c == ']' && (m.alt || m.super_key) => EditorAction::NextTab,
        KeyCode::Char(c) if c == '[' && (m.alt || m.super_key) => EditorAction::PrevTab,
        KeyCode::Char(c) if c == 'w' && m.control => EditorAction::CloseTab,
        KeyCode::Char(c) if m.alt && '0' <= c <= '9' => EditorAction::SwitchTab(digit_value(c)),
        KeyCode::Char(c) if c == 'c' && m.control => EditorAction::Copy,
        KeyCode::Char(c) if c == 'x' && m.control => EditorAction::Cut,
        KeyCode::Char(c) if c == 'v' && m.control => EditorAction::Paste,
        KeyCode::Char(c) if c == 'z' && m.control => EditorAction::Undo,
        KeyCode::Char(c) if c == 'y' && m.control => EditorAction::Redo,
        KeyCode::PageUp => EditorAction::PageUp,
        KeyCode::PageDown => EditorAction::PageDown,
        _ => if !editing { navigation_action(key) } else { editing_action(key) },
    }
}

/// Outside insert mode: arrows scroll, `hjkl` move, Ctrl+U/D scroll half
/// a page, `g`/Home go to the top and `G`/End to the bottom.
pub open spec fn navigation_action(key: KeyEvent) -> EditorAction {
    match key.code {
        KeyCode::Up => EditorAction::ScrollUp,
        KeyCode::Down => EditorAction::ScrollDown,
        KeyCode::Left => EditorAction::ScrollLeft,
        KeyCode::Right => EditorAction::ScrollRight,
        KeyCode::Char(c) if c == 'j' => EditorAction::Move(Direction::Down),
        KeyCode::Char(c) if c == 'k' => EditorAction::Move(Direction::Up),
        KeyCode::Char(c) if c == 'h' => EditorAction::Move(Direction::Left),
        KeyCode::Char(c) if c == 'l' => EditorAction::Move(Direction::Right),
        KeyCode::Char(c) if c == 'u' && key.modifiers.control => EditorAction::HalfPageUp,
        KeyCode::Char(c) if c == 'd' && key.modifiers.control => EditorAction::HalfPageDown,
        KeyCode::Char(c) if c == 'g' => EditorAction::GoTop,
        KeyCode::Char(c) if c == 'G' => EditorAction::GoBottom,
        KeyCode::Home => EditorAction::GoTop,
        KeyCode::End => EditorAction::GoBottom,
        _ => EditorAction::Ignore,
    }
}

/// In insert mode: characters (without Ctrl) are typed, the editing keys
/// edit, arrows, Home and End move (selecting with Shift), Esc clears the
/// selection.
pub open spec fn editing_action(key: KeyEvent) -> EditorAction {
    let shift = key.modifiers.shift;
    match key.code {
        KeyCode::Char(c) if !key.modifiers.control => EditorAction::TypeChar(c),
        KeyCode::Backspace => EditorAction::Backspace,
        KeyCode::Delete => EditorAction::Delete,
        KeyCode::Enter => EditorAction::Enter,
        KeyCode::Up => EditorAction::SelectMove(shift, Direction::Up),
        KeyCode::Down => EditorAction::SelectMove(shift, Direction::Down),
        KeyCode::Left => EditorAction::SelectMove(shift, Direction::Left),
        KeyCode::Right => EditorAction::SelectMove(shift, Direction::Right),
        KeyCode::Home => EditorAction::LineStart(shift),
        KeyCode::End => EditorAction::LineEnd(shift),
        KeyCode::Esc => EditorAction::Escape,
        _ => EditorAction::Ignore,
    }
}

impl EditorAction {
    /// The action a key asks for (`editing`: the input mode is an editing
    /// one).
    pub fn for_key(key: &KeyEvent, editing: bool) -> (a: Self)
        ensures
            a == key_action(*key, editing),
    {
        let m = key.modifiers;
        match key.code {
            KeyCode::Char(c) => {
                if c == ']' && (m.alt || m.super_key) {
                    return EditorAction::NextTab;
                }
                if c == '[' && (m.alt || m.super_key) {
                    return EditorAction::PrevTab;
                }
                if c == 'w' && m.control {
                    return EditorAction::CloseTab;
                }
                if m.alt && '0' <= c && c <= '9' {
                    return EditorAction::SwitchTab((c as u32) - ('0' as u32));
                }
                if c == 'c' && m.control {
                    return EditorAction::Copy;
                }
                if c == 'x' && m.control {
                    return EditorAction::Cut;
                }
                if c == 'v' && m.control {
                    return EditorAction::Paste;
                }
                if c == 'z' && m.control {
                    return EditorAction::Undo;
                }
                if c == 'y' && m.control {
                    return EditorAction::Redo;
                }
            },
            KeyCode::PageUp => {
                return EditorAction::PageUp;
            },
            KeyCode::PageDown => {
                return EditorAction::PageDown;
            },
            _ => {},
        }
        if !editing {
            Self::navigation(key)
        } else {
            Self::editing(key)
        }
    }

    fn navigation(key: &KeyEvent) -> (a: Self)
        ensures
            a == navigation_action(*key),
    {
        match key.code {
            KeyCode::Up => EditorAction::ScrollUp,
            KeyCode::Down => EditorAction::ScrollDown,
            KeyCode::Left => EditorAction::ScrollLeft,
            KeyCode::Right => EditorAction::ScrollRight,
            KeyCode::Char(c) => {
                if c == 'j' {
                    EditorAction::Move(Direction::Down)
                } else if c == 'k' {
                    EditorAction::Move(Direction::Up)
                } else if c == 'h' {
                    EditorAction::Move(Direction::Left)
                } else if c == 'l' {
                    EditorAction::Move(Direction::Right)
                } else if c == 'u' && key.modifiers.control {
                    EditorAction::HalfPageUp
                } else if c == 'd' && key.modifiers.control {
                    EditorAction::HalfPageDown
                } else if c == 'g' {
                    EditorAction::GoTop
                } else if c == 'G' {
                    EditorAction::GoBottom
                } else {
                    EditorAction::Ignore
                }
            },
            KeyCode::Home => EditorAction::GoTop,
            KeyCode::End => EditorAction::GoBottom,
            _ => EditorAction::Ignore,
        }
    }

    fn editing(key: &KeyEvent) -> (a: Self)
        ensures
            a == editing_action(*key),
    {
        let shift = key.modifiers.shift;
        match key.code {
            KeyCode::Char(c) => {
                if !key.modifiers.control {
                    EditorAction::TypeChar(c)
                } else {
                    EditorAction::Ignore
                }
            },
            KeyCode::Backspace => EditorAction::Backspace,
            KeyCode::Delete => EditorAction::Delete,
            KeyCode::Enter => EditorAction::Enter,
            KeyCode::Up => EditorAction::SelectMove(shift, Direction::Up),
            KeyCode::Down => EditorAction::SelectMove(shift, Direction::Down),
            KeyCode::Left => EditorAction::SelectMove(shift, Direction::Left),
            KeyCode::Right => EditorAction::SelectMove(shift, Direction::Right),
            KeyCode::Home => EditorAction::LineStart(shift),
            KeyCode::End => EditorAction::LineEnd(shift),
            KeyCode::Esc => EditorAction::Escape,
            _ => EditorAction::Ignore,
        }
    }

    /// Whether the key was the editor's (Esc and unknown keys go on to the
    /// caller).
    pub fn is_handled(&self) -> (b: bool)
        ensures
            b == !(*self is Escape || *self is Ignore),
    {
        !matches!(self, EditorAction::Escape | EditorAction::Ignore)
    }
}

/// A tab with another cursor and scroll position, all else the same.
pub open spec fn with_view(t: FileTab, cursor: (usize, usize), scroll: (usize, usize)) -> FileTab {
    FileTab { cursor: cursor, scroll: scroll, ..t }
}

/// The first visible line after a page up.
pub open spec fn page_up_scroll(t: FileTab, vh: nat) -> int {
    let step = if vh >= 2 { vh - 2 } else { 0 };
    if t.scroll.0 >= step { t.scroll.0 - step } else { 0 }
}

/// The first visible line after a page down.
pub open spec fn page_down_scroll(t: FileTab, vh: nat) -> int {
    let step = if vh >= 2 { vh - 2 } else { 0 };
    let last = last_line(t.text());
    if t.scroll.0 + step <= last { t.scroll.0 + step } else { last as int }
}

/// The tab is ready for typing: a selection to type over can be deleted,
/// and the cursor (where the typing goes) is on a line with room.
pub open spec fn typing_ready(t: FileTab) -> bool {
    &&& t.selection@ is Some ==> selection_deletable(t)
    &&& if t.selection@ is Some && sel_deletes(t) {
        (sel_range(t)->0).0.column < usize::MAX
    } else {
        t.cursor_ok() && t.cursor.1 < usize::MAX
    }
}

/// `b` is `a` after deleting its selection when one is active.
pub open spec fn selection_cleared_for_edit(a: FileTab, b: FileTab) -> bool {
    if a.selection@ is Some { selection_deleted(a, b) } else { b == a }
}

proof fn lemma_cursor_ok_after_delete(a: FileTab, b: FileTab)
    requires
        a.selection@ is Some ==> selection_deletable(a),
        selection_cleared_for_edit(a, b),
        a.selection@ is Some && sel_deletes(a),
    ensures
        b.cursor_ok(),
        b.cursor.1 == (sel_range(a)->0).0.column,
{
    let (s, e) = sel_range(a)->0;
    assert(pos_le(s, e));
}

impl EditorPanel {
    /// Switch to the tab with this 1-based number, if there is one.
    pub fn switch_tab_number(&mut self, n: u32)
        ensures
            final(self)@.tabs == old(self)@.tabs,
            final(self)@.visible_height == old(self)@.visible_height,
            final(self)@.active == (if 1 <= n <= old(self)@.tabs.len() { (n - 1) as nat } else { old(self)@.active }),
    {
        if n >= 1 && (n as usize) <= self.tab_count() {
            self.switch_tab((n - 1) as usize);
        }
    }

    /// Page up, then bring the cursor up to the last visible line.
    pub fn page_up_key(&mut self)
        requires
            old(self).wf(),
            page_up_scroll(old(self).tab(), old(self)@.visible_height) + old(self)@.visible_height > 0,
        ensures
            final(self).wf(),
            Self::edited_active(old(self)@, final(self)@),
            ({
                let t = old(self).tab();
                let vh = old(self)@.visible_height;
                let s = page_up_scroll(t, vh);
                let c = if t.cursor.0 >= s + vh { (s + vh - 1) as usize } else { t.cursor.0 };
                final(self).tab() == with_view(t, (c, t.cursor.1), (s as usize, t.scroll.1))
            }),
    {
        self.scroll_page_up();
        let vh = self.visible_height();
        let a = self.active_tab_index();
        let top = self.active_tab().scroll.0;
        let row = self.active_tab().cursor.0;
        if row as u128 >= top as u128 + vh as u128 {
            let t = self.active_tab_mut();
            t.cursor.0 = top + vh - 1;
        }
        let _ = a;
    }

    /// Page down, then bring the cursor down to the first visible line.
    pub fn page_down_key(&mut self)
        requires
            old(self).wf(),
            old(self).tab().scroll.0 + old(self)@.visible_height <= usize::MAX,
        ensures
            final(self).wf(),
            Self::edited_active(old(self)@, final(self)@),
            ({
                let t = old(self).tab();
                let s = page_down_scroll(t, old(self)@.visible_height);
                let c = if t.cursor.0 < s { s as usize } else { t.cursor.0 };
                final(self).tab() == with_view(t, (c, t.cursor.1), (s as usize, t.scroll.1))
            }),
    {
        self.scroll_page_down();
        let top = self.active_tab().scroll.0;
        let row = self.active_tab().cursor.0;
        if row < top {
            let t = self.active_tab_mut();
            t.cursor.0 = top;
        }
    }

    /// Scroll one column left (not past the first).
    pub fn scroll_left(&mut self)
        requires
            old(self).wf(),
        ensures
            final(self).wf(),
            Self::edited_active(old(self)@, final(self)@),
            ({
                let t = old(self).tab();
                let col = if t.scroll.1 >= 1 { (t.scroll.1 - 1) as usize } else { 0usize };
                final(self).tab() == with_view(t, t.cursor, (t.scroll.0, col))
            }),
    {
        let t = self.active_tab_mut();
        t.scroll.1 = if t.scroll.1 >= 1 { t.scroll.1 - 1 } else { 0 };
    }

    /// Scroll one column right.
    pub fn scroll_right(&mut self)
        requires
            old(self).wf(),
            old(self).tab().scroll.1 < usize::MAX,
        ensures
            final(self).wf(),
            Self::edited_active(old(self)@, final(self)@),
            ({
                let t = old(self).tab();
                final(self).tab() == with_view(t, t.cursor, (t.scroll.0, (t.scroll.1 + 1) as usize))
            }),
    {
        let t = self.active_tab_mut();
        t.scroll.1 = t.scroll.1 + 1;
    }

    /// Go to the beginning of the file.
    pub fn go_to_top(&mut self)
        requires
            old(self).wf(),
        ensures
            final(self).wf(),
            Self::edited_active(old(self)@, final(self)@),
            final(self).tab() == with_view(old(self).tab(), (0usize, 0usize), (0usize, old(self).tab().scroll.1)),
    {
        let t = self.active_tab_mut();
        t.cursor = (0, 0);
        t.scroll.0 = 0;
    }

    /// Go to the start of the last line, and scroll it into view.
    pub fn go_to_bottom(&mut self)
        requires
            old(self).wf(),
            old(self).tab().scroll.0 + old(self)@.visible_height <= usize::MAX,
        ensures
            final(self).wf(),
            Self::edited_active(old(self)@, final(self)@),
            ({
                let t = old(self).tab();
                let last = if t.lines@.len() >= 1 { (t.lines@.len() - 1) as usize } else { 0usize };
                let s = visible_scroll(last as nat, t.scroll.0 as nat, old(self)@.visible_height);
                final(self).tab() == with_view(t, (last, 0usize), (s as usize, t.scroll.1))
            }),
    {
        let t = self.active_tab_mut();
        let n = t.lines.len();
        t.cursor.0 = if n >= 1 { n - 1 } else { 0 };
        t.cursor.1 = 0;
        self.ensure_cursor_visible();
    }

    /// Type a character, replacing the selection if one is active.
    pub fn type_char(&mut self, c: char)
        requires
            old(self).wf(),
            typing_ready(old(self).tab()),
        ensures
            final(self).wf(),
            Self::edited_active(old(self)@, final(self)@),
            exists|mid: FileTab| selection_cleared_for_edit(old(self).tab(), mid) && char_inserted(mid, final(self).tab(), c),
    {
        let ghost a = self.tab();
        if self.active_tab().selection.is_active() {
            self.delete_selection();
            proof {
                if sel_deletes(a) {
                    lemma_cursor_ok_after_delete(a, self.tab());
                }
            }
        }
        let ghost mid = self.tab();
        let ghost mid_view = self@;
        self.insert_char(c);
        assert(selection_cleared_for_edit(a, mid));
    }

    /// Delete backwards, or the selection if one is active; true when the
    /// selection was deleted (the highlighting is then out of date).
    pub fn backspace_key(&mut self) -> (deleted_selection: bool)
        requires
            old(self).wf(),
            old(self).tab().selection@ is Some ==> selection_deletable(old(self).tab()),
            old(self).tab().selection@ is None ==> old(self).tab().cursor_ok(),
        ensures
            final(self).wf(),
            Self::edited_active(old(self)@, final(self)@),
            deleted_selection == old(self).tab().selection@ is Some,
            deleted_selection ==> selection_deleted(old(self).tab(), final(self).tab()),
            !deleted_selection ==> backspaced(old(self).tab(), final(self).tab()),
    {
        if self.active_tab().selection.is_active() {
            self.delete_selection();
            true
        } else {
            self.backspace();
            false
        }
    }

    /// Delete forwards, or the selection if one is active; true when the
    /// selection was deleted.
    pub fn delete_key(&mut self) -> (deleted_selection: bool)
        requires
            old(self).wf(),
            old(self).tab().selection@ is Some ==> selection_deletable(old(self).tab()),
            old(self).tab().selection@ is None ==> old(self).tab().cursor_ok(),
        ensures
            final(self).wf(),
            Self::edited_active(old(self)@, final(self)@),
            deleted_selection == old(self).tab().selection@ is Some,
            deleted_selection ==> selection_deleted(old(self).tab(), final(self).tab()),
            !deleted_selection ==> deleted_forward(old(self).tab(), final(self).tab()),
    {
        if self.active_tab().selection.is_active() {
            self.delete_selection();
            true
        } else {
            self.delete();
            false
        }
    }

    /// Break the line, replacing the selection if one is active.
    pub fn enter_key(&mut self)
        requires
            old(self).wf(),
            typing_ready(old(self).tab()),
        ensures
            final(self).wf(),
            Self::edited_active(old(self)@, final(self)@),
            exists|mid: FileTab| selection_cleared_for_edit(old(self).tab(), mid) && line_split(mid, final(self).tab()),
    {
        let ghost a = self.tab();
        if self.active_tab().selection.is_active() {
            self.delete_selection();
            proof {
                if sel_deletes(a) {
                    lemma_cursor_ok_after_delete(a, self.tab());
                }
            }
        }
        let ghost mid = self.tab();
        self.newline();
        assert(selection_cleared_for_edit(a, mid));
    }

    /// Move the cursor; with Shift the selection starts (or goes on) from
    /// where the cursor was, without it the selection is cleared.
    pub fn select_move(&mut self, shift: bool, dir: Direction)
        requires
            old(self).wf(),
            old(self).tab().cursor_ok(),
            old(self).tab().cursor.1 < usize::MAX,
            old(self).tab().scroll.0 + old(self)@.visible_height <= usize::MAX,
        ensures
            final(self).wf(),
            Self::edited_active(old(self)@, final(self)@),
            final(self).tab().selection@ == (if shift {
                match old(self).tab().selection@ {
                    Some(p) => Some(p),
                    None => Some(super::selection::Position { line: old(self).tab().cursor.0, column: old(self).tab().cursor.1 }),
                }
            } else {
                None
            }),
            final(self).tab().cursor == moved_cursor(old(self).tab().text(), old(self).tab().cursor, dir),
            final(self).tab().scroll.0 == visible_scroll(
                final(self).tab().cursor.0 as nat, old(self).tab().scroll.0 as nat, old(self)@.visible_height),
            final(self).tab().scroll.1 == old(self).tab().scroll.1,
            final(self).tab().lines == old(self).tab().lines,
            final(self).tab().undo_stack == old(self).tab().undo_stack,
            final(self).tab().modified == old(self).tab().modified,
    {
        self.handle_selection(shift);
        self.move_cursor(dir);
    }

    /// Go to the start of the line; with Shift the selection starts (or
    /// goes on) from where the cursor was, without it it is cleared.
    pub fn line_start(&mut self, shift: bool)
        requires
            old(self).wf(),
        ensures
            final(self).wf(),
            Self::edited_active(old(self)@, final(self)@),
            ({
                let t = old(self).tab();
                let sel = if shift {
                    match t.selection@ {
                        Some(p) => Some(p),
                        None => Some(super::selection::Position { line: t.cursor.0, column: t.cursor.1 }),
                    }
                } else {
                    None
                };
                &&& final(self).tab().selection@ == sel
                &&& final(self).tab().cursor == (t.cursor.0, 0usize)
                &&& final(self).tab().scroll == t.scroll
                &&& final(self).tab().lines == t.lines
                &&& final(self).tab().undo_stack == t.undo_stack
                &&& final(self).tab().modified == t.modified
            }),
    {
        self.handle_selection(shift);
        let t = self.active_tab_mut();
        t.cursor.1 = 0;
    }

    /// Go to the end of the line (its length in characters; 0 off the
    /// text); with Shift the selection starts (or goes on) from where the
    /// cursor was, without it it is cleared.
    pub fn line_end(&mut self, shift: bool)
        requires
            old(self).wf(),
        ensures
            final(self).wf(),
            Self::edited_active(old(self)@, final(self)@),
            ({
                let t = old(self).tab();
                let sel = if shift {
                    match t.selection@ {
                        Some(p) => Some(p),
                        None => Some(super::selection::Position { line: t.cursor.0, column: t.cursor.1 }),
                    }
                } else {
                    None
                };
                let end = if t.cursor.0 < t.lines@.len() { t.text()[t.cursor.0 as int].len() } else { 0 };
                &&& final(self).tab().selection@ == sel
                &&& final(self).tab().cursor == (t.cursor.0, end as usize)
                &&& final(self).tab().scroll == t.scroll
                &&& final(self).tab().lines == t.lines
                &&& final(self).tab().undo_stack == t.undo_stack
                &&& final(self).tab().modified == t.modified
            }),
    {
        self.handle_selection(shift);
        let n = {
            let line = self.active_tab().current_line();
            line.unicode_len()
        };
        let t = self.active_tab_mut();
        t.cursor.1 = n;
    }

    /// Esc clears the selection (the key itself goes on to the caller).
    pub fn escape_key(&mut self)
        requires
            old(self).wf(),
        ensures
            final(self).wf(),
            Self::edited_active(old(self)@, final(self)@),
            final(self).tab().selection@ is None,
            final(self).tab().cursor == old(self).tab().cursor,
            final(self).tab().lines == old(self).tab().lines,
            final(self).tab().scroll == old(self).tab().scroll,
            final(self).tab().undo_stack == old(self).tab().undo_stack,
    {
        self.handle_selection(false);
    }
}

} // verus!
