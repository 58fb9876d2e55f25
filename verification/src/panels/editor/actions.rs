//! Carrying out an editor action on the panel. The clipboard is the
//! application's: copy, cut and paste tell it what to do with it.

use vstd::prelude::*;
use super::buffer::{
    FileTab, same_but_view, last_line, visible_scroll, char_inserted, line_split, backspaced,
    deleted_forward, moved_cursor,
};
use super::keys::{
    EditorAction, with_view, page_up_scroll, page_down_scroll, typing_ready, selection_cleared_for_edit,
};
use super::selection::{Position, range_of, text_between};
use super::{EditorPanel, selection_deletable, selection_deleted, undo_ready, undone, redo_ready, redone};

verus! {

/// What is left to the application after an editor action.
#[derive(Debug, Clone, PartialEq, Eq)]
pub enum EditorOutcome {
    /// Not an editor key: it goes on to the caller.
    NotHandled,
    /// Done.
    Handled,
    /// Done, and the text changed under the highlighting: refresh it.
    Refresh,
    /// Put this text (the selection) on the clipboard; on success, say so.
    CopyText(String),
    /// Put this text (the selection) on the clipboard; on success, call
    /// `delete_selection` and refresh the highlighting.
    CutText(String),
    /// Read the clipboard; on success, `paste` its text and refresh the
    /// highlighting.
    PasteClipboard,
}

/// The text of the active tab's selection, if one is active.
pub open spec fn selected_text(t: FileTab) -> Option<Seq<char>> {
    match range_of(t.selection@, Position { line: t.cursor.0, column: t.cursor.1 }) {
        Some((start, end)) => text_between(t.text(), start, end),
        None => None,
    }
}

/// The selection after a move: with Shift it starts (or goes on) from
/// where the cursor was, without it it is cleared.
pub open spec fn selection_after_move(t: FileTab, shift: bool) -> Option<Position> {
    if shift {
        match t.selection@ {
            Some(p) => Some(p),
            None => Some(Position { line: t.cursor.0, column: t.cursor.1 }),
        }
    } else {
        None
    }
}

/// What an action needs of the panel: room to scroll or move without
/// overflow, and a selection and cursor the edits can work on.
pub open spec fn action_ready(p: EditorPanel, action: EditorAction) -> bool {
    let t = p.tab();
    let vh = p@.visible_height;
    match action {
        EditorAction::Undo => undo_ready(t),
        EditorAction::Redo => redo_ready(t),
        EditorAction::PageUp => page_up_scroll(t, vh) + vh > 0,
        EditorAction::PageDown => t.scroll.0 + vh <= usize::MAX,
        EditorAction::ScrollDown => t.scroll.0 + 1 <= usize::MAX,
        EditorAction::ScrollRight => t.scroll.1 < usize::MAX,
        EditorAction::Move(_) => t.cursor_ok() && t.cursor.1 < usize::MAX && t.scroll.0 + vh <= usize::MAX,
        EditorAction::HalfPageDown => t.scroll.0 + vh / 2 + 1 <= usize::MAX,
        EditorAction::GoBottom => t.scroll.0 + vh <= usize::MAX,
        EditorAction::TypeChar(_) => typing_ready(t),
        EditorAction::Enter => typing_ready(t),
        EditorAction::Backspace => (t.selection@ is Some ==> selection_deletable(t)) && (t.selection@ is None ==> t.cursor_ok()),
        EditorAction::Delete => (t.selection@ is Some ==> selection_deletable(t)) && (t.selection@ is None ==> t.cursor_ok()),
        EditorAction::SelectMove(_, _) => t.cursor_ok() && t.cursor.1 < usize::MAX && t.scroll.0 + vh <= usize::MAX,
        _ => true,
    }
}

/// A tab scrolled to the first visible line `top`, all else the same.
pub open spec fn scrolled_to(t: FileTab, u: FileTab, top: int) -> bool {
    &&& u.scroll.0 == top
    &&& u.scroll.1 == t.scroll.1
    &&& u.cursor == t.cursor
    &&& same_but_view(t, u)
}

/// The effect of a tab switch.
pub open spec fn tabs_switched(a: EditorPanel, b: EditorPanel, active: nat) -> bool {
    &&& b@.tabs == a@.tabs
    &&& b@.visible_height == a@.visible_height
    &&& b@.active == active
}

/// `b` is `a` after the action, and `out` what is left to do.
pub open spec fn action_done(a: EditorPanel, b: EditorPanel, action: EditorAction, out: EditorOutcome) -> bool {
    let t = a.tab();
    let u = b.tab();
    let vh = a@.visible_height;
    match action {
        EditorAction::NextTab => tabs_switched(a, b, (a@.active + 1) % a@.tabs.len()) && out == EditorOutcome::Handled,
        EditorAction::PrevTab => tabs_switched(a, b, if a@.active == 0 { (a@.tabs.len() - 1) as nat } else { (a@.active - 1) as nat })
            && out == EditorOutcome::Handled,
        EditorAction::CloseTab => {
            &&& a@.tabs.len() > 1 ==> b@.tabs == a@.tabs.remove(a@.active as int)
            &&& a@.tabs.len() <= 1 ==> b@.tabs.len() == 1 && b@.tabs[0].file_path is None
            &&& out == EditorOutcome::Handled
        },
        EditorAction::SwitchTab(n) => tabs_switched(a, b, if 1 <= n <= a@.tabs.len() { (n - 1) as nat } else { a@.active })
            && out == EditorOutcome::Handled,
        EditorAction::Copy => b == a && match selected_text(t) {
            Some(s) => out matches EditorOutcome::CopyText(x) && x@ == s,
            None => out == EditorOutcome::Handled,
        },
        EditorAction::Cut => b == a && match selected_text(t) {
            Some(s) => out matches EditorOutcome::CutText(x) && x@ == s,
            None => out == EditorOutcome::Handled,
        },
        EditorAction::Paste => b == a && out == EditorOutcome::PasteClipboard,
        EditorAction::Undo => {
            &&& EditorPanel::edited_active(a@, b@)
            &&& t.undo_stack@.undo.len() > 0 ==> undone(t, u) && out == EditorOutcome::Refresh
            &&& t.undo_stack@.undo.len() == 0 ==> b@ == a@ && out == EditorOutcome::Handled
        },
        EditorAction::Redo => {
            &&& EditorPanel::edited_active(a@, b@)
            &&& t.undo_stack@.redo.len() > 0 ==> redone(t, u) && out == EditorOutcome::Refresh
            &&& t.undo_stack@.redo.len() == 0 ==> b@ == a@ && out == EditorOutcome::Handled
        },
        _ => EditorPanel::edited_active(a@, b@) && view_action_done(t, u, vh, action, out),
    }
}

/// The actions that move, scroll and edit within the active tab: `u` is
/// the tab `t` after the action, in a view `vh` lines high.
pub open spec fn view_action_done(t: FileTab, u: FileTab, vh: nat, action: EditorAction, out: EditorOutcome) -> bool {
    match action {
        EditorAction::PageUp => {
            let s = page_up_scroll(t, vh);
            let c = if t.cursor.0 >= s + vh { (s + vh - 1) as usize } else { t.cursor.0 };
            u == with_view(t, (c, t.cursor.1), (s as usize, t.scroll.1)) && out == EditorOutcome::Handled
        },
        EditorAction::PageDown => {
            let s = page_down_scroll(t, vh);
            let c = if t.cursor.0 < s { s as usize } else { t.cursor.0 };
            u == with_view(t, (c, t.cursor.1), (s as usize, t.scroll.1)) && out == EditorOutcome::Handled
        },
        EditorAction::ScrollUp => scrolled_to(t, u, if t.scroll.0 >= 1 { t.scroll.0 - 1 } else { 0 })
            && out == EditorOutcome::Handled,
        EditorAction::ScrollDown => scrolled_to(t, u, if t.scroll.0 + 1 <= last_line(t.text()) {
            t.scroll.0 + 1
        } else {
            last_line(t.text()) as int
        }) && out == EditorOutcome::Handled,
        EditorAction::ScrollLeft => u == with_view(t, t.cursor, (t.scroll.0, if t.scroll.1 >= 1 { (t.scroll.1 - 1) as usize } else { 0usize }))
            && out == EditorOutcome::Handled,
        EditorAction::ScrollRight => u == with_view(t, t.cursor, (t.scroll.0, (t.scroll.1 + 1) as usize))
            && out == EditorOutcome::Handled,
        EditorAction::Move(d) => {
            &&& u.cursor == moved_cursor(t.text(), t.cursor, d)
            &&& u.scroll.0 == visible_scroll(u.cursor.0 as nat, t.scroll.0 as nat, vh)
            &&& u.scroll.1 == t.scroll.1
            &&& same_but_view(t, u)
            &&& out == EditorOutcome::Handled
        },
        EditorAction::HalfPageUp => {
            let step = if vh / 2 >= 1 { vh / 2 } else { 1 };
            scrolled_to(t, u, if t.scroll.0 >= step { t.scroll.0 - step } else { 0 }) && out == EditorOutcome::Handled
        },
        EditorAction::HalfPageDown => {
            let step = if vh / 2 >= 1 { vh / 2 } else { 1 };
            let last = last_line(t.text());
            scrolled_to(t, u, if t.scroll.0 + step <= last { t.scroll.0 + step } else { last as int })
                && out == EditorOutcome::Handled
        },
        EditorAction::GoTop => u == with_view(t, (0usize, 0usize), (0usize, t.scroll.1)) && out == EditorOutcome::Handled,
        EditorAction::GoBottom => {
            let last = if t.lines@.len() >= 1 { (t.lines@.len() - 1) as usize } else { 0usize };
            let s = visible_scroll(last as nat, t.scroll.0 as nat, vh);
            u == with_view(t, (last, 0usize), (s as usize, t.scroll.1)) && out == EditorOutcome::Handled
        },
        EditorAction::TypeChar(c) => (exists|mid: FileTab| selection_cleared_for_edit(t, mid) && char_inserted(mid, u, c))
            && out == EditorOutcome::Handled,
        EditorAction::Enter => (exists|mid: FileTab| selection_cleared_for_edit(t, mid) && line_split(mid, u))
            && out == EditorOutcome::Handled,
        EditorAction::Backspace => {
            &&& t.selection@ is Some ==> selection_deleted(t, u) && out == EditorOutcome::Refresh
            &&& t.selection@ is None ==> backspaced(t, u) && out == EditorOutcome::Handled
        },
        EditorAction::Delete => {
            &&& t.selection@ is Some ==> selection_deleted(t, u) && out == EditorOutcome::Refresh
            &&& t.selection@ is None ==> deleted_forward(t, u) && out == EditorOutcome::Handled
        },
        EditorAction::SelectMove(shift, d) => {
            &&& u.selection@ == selection_after_move(t, shift)
            &&& u.cursor == moved_cursor(t.text(), t.cursor, d)
            &&& u.scroll.0 == visible_scroll(u.cursor.0 as nat, t.scroll.0 as nat, vh)
            &&& u.scroll.1 == t.scroll.1
            &&& u.lines == t.lines
            &&& u.undo_stack == t.undo_stack
            &&& u.modified == t.modified
            &&& out == EditorOutcome::Handled
        },
        EditorAction::LineStart(shift) => {
            &&& u.selection@ == selection_after_move(t, shift)
            &&& u.cursor == (t.cursor.0, 0usize)
            &&& u.scroll == t.scroll
            &&& u.lines == t.lines
            &&& u.undo_stack == t.undo_stack
            &&& u.modified == t.modified
            &&& out == EditorOutcome::Handled
        },
        EditorAction::LineEnd(shift) => {
            let end = if t.cursor.0 < t.lines@.len() { t.text()[t.cursor.0 as int].len() } else { 0 };
            &&& u.selection@ == selection_after_move(t, shift)
            &&& u.cursor == (t.cursor.0, end as usize)
            &&& u.scroll == t.scroll
            &&& u.lines == t.lines
            &&& u.undo_stack == t.undo_stack
            &&& u.modified == t.modified
            &&& out == EditorOutcome::Handled
        },
        EditorAction::Escape => {
            &&& u.selection@ is None
            &&& u.cursor == t.cursor
            &&& u.lines == t.lines
            &&& u.scroll == t.scroll
            &&& u.undo_stack == t.undo_stack
            &&& out == EditorOutcome::NotHandled
        },
        _ => u == t && out == EditorOutcome::NotHandled,
    }
}

impl EditorPanel {
    /// Carry out `action` on the active tab (tab keys on the tabs). The
    /// clipboard actions leave the clipboard to the caller: copy and cut
    /// hand back the selected text, paste asks for the clipboard's.
    pub fn apply_action(&mut self, action: EditorAction) -> (out: EditorOutcome)
        requires
            old(self).wf(),
            action_ready(*old(self), action),
        ensures
            final(self).wf(),
            action_done(*old(self), *final(self), action, out),
    {
        match action {
            EditorAction::NextTab => {
                self.next_tab();
                EditorOutcome::Handled
            },
            EditorAction::PrevTab => {
                self.prev_tab();
                EditorOutcome::Handled
            },
            EditorAction::CloseTab => {
                self.close_current_tab();
                EditorOutcome::Handled
            },
            EditorAction::SwitchTab(n) => {
                self.switch_tab_number(n);
                EditorOutcome::Handled
            },
            EditorAction::Copy => match self.get_selected_text() {
                Some(text) => EditorOutcome::CopyText(text),
                None => EditorOutcome::Handled,
            },
            EditorAction::Cut => match self.get_selected_text() {
                Some(text) => EditorOutcome::CutText(text),
                None => EditorOutcome::Handled,
            },
            EditorAction::Paste => EditorOutcome::PasteClipboard,
            EditorAction::Undo => if self.undo() { EditorOutcome::Refresh } else { EditorOutcome::Handled },
            EditorAction::Redo => if self.redo() { EditorOutcome::Refresh } else { EditorOutcome::Handled },
            EditorAction::PageUp => {
                self.page_up_key();
                EditorOutcome::Handled
            },
            EditorAction::PageDown => {
                self.page_down_key();
                EditorOutcome::Handled
            },
            EditorAction::ScrollUp => {
                self.scroll_up(1);
                EditorOutcome::Handled
            },
            EditorAction::ScrollDown => {
                self.scroll_down(1);
                EditorOutcome::Handled
            },
            EditorAction::ScrollLeft => {
                self.scroll_left();
                EditorOutcome::Handled
            },
            EditorAction::ScrollRight => {
                self.scroll_right();
                EditorOutcome::Handled
            },
            EditorAction::Move(d) => {
                self.move_cursor(d);
                EditorOutcome::Handled
            },
            EditorAction::HalfPageUp => {
                self.scroll_half_page_up();
                EditorOutcome::Handled
            },
            EditorAction::HalfPageDown => {
                self.scroll_half_page_down();
                EditorOutcome::Handled
            },
            EditorAction::GoTop => {
                self.go_to_top();
                EditorOutcome::Handled
            },
            EditorAction::GoBottom => {
                self.go_to_bottom();
                EditorOutcome::Handled
            },
            EditorAction::TypeChar(c) => {
                self.type_char(c);
                EditorOutcome::Handled
            },
            EditorAction::Backspace => if self.backspace_key() { EditorOutcome::Refresh } else { EditorOutcome::Handled },
            EditorAction::Delete => if self.delete_key() { EditorOutcome::Refresh } else { EditorOutcome::Handled },
            EditorAction::Enter => {
                self.enter_key();
                EditorOutcome::Handled
            },
            EditorAction::SelectMove(shift, d) => {
                self.select_move(shift, d);
                EditorOutcome::Handled
            },
            EditorAction::LineStart(shift) => {
                self.line_start(shift);
                EditorOutcome::Handled
            },
            EditorAction::LineEnd(shift) => {
                self.line_end(shift);
                EditorOutcome::Handled
            },
            EditorAction::Escape => {
                self.escape_key();
                EditorOutcome::NotHandled
            },
            EditorAction::Ignore => EditorOutcome::NotHandled,
        }
    }
}

} // verus!
