//! The text editor: diff tracking, selection, undo history, file tabs and
//! the edits on them.

pub mod diff;
pub mod selection;
pub mod undo;
pub mod buffer;
pub mod keys;
pub mod highlight;
pub mod rows;
pub mod actions;

use vstd::prelude::*;
use buffer::{
    FileTab, Direction, char_inserted, line_split, backspaced, deleted_forward, text_inserted,
    range_removed, moved_cursor, visible_scroll, same_but_view, last_line, keeps_meta,
    end_position, calculate_end_position,
};
use diff::{changes_from, ghosts_from, diff_ops, GhostView, LineChange};
use selection::{Position, pos_le, range_of, text_between};
use rows::{tab_label, labels_view, click_of, click_target, covering_tab, click_fits, EditorClick};
use crate::ui::layout::Rect;
use crate::ui::scroll::ScrollBar;
use undo::{EditOp, pushed};
use crate::text::{concat, lines_view, lines_of, owned, str_lines};

verus! {

/// The mathematical value of an editor.
pub struct EditorView {
    /// Open tabs.
    pub tabs: Seq<FileTab>,
    /// Index of the active tab.
    pub active: nat,
    /// Number of text lines visible at once.
    pub visible_height: nat,
}

/// Editor panel with multiple file tabs.
pub struct EditorPanel {
    tabs: Vec<FileTab>,
    active_tab: usize,
    visible_height: usize,
}

impl View for EditorPanel {
    type V = EditorView;

    closed spec fn view(&self) -> EditorView {
        EditorView {
            tabs: self.tabs@,
            active: self.active_tab as nat,
            visible_height: self.visible_height as nat,
        }
    }
}

impl EditorPanel {
    /// At least one tab, and the active one exists.
    pub open spec fn wf(&self) -> bool {
        self@.tabs.len() >= 1 && self@.active < self@.tabs.len()
    }

    /// The active tab.
    pub open spec fn tab(&self) -> FileTab {
        self@.tabs[self@.active as int]
    }

    /// Only the active tab changed.
    pub open spec fn edited_active(old: EditorView, new: EditorView) -> bool {
        &&& new.active == old.active
        &&& new.visible_height == old.visible_height
        &&& new.tabs.len() == old.tabs.len()
        &&& forall|k: int| 0 <= k < old.tabs.len() && k != old.active ==> new.tabs[k] == old.tabs[k]
    }

    /// A new editor with one empty tab.
    pub fn new() -> (e: Self)
        ensures
            e.wf(),
            e@.tabs.len() == 1,
            e@.active == 0,
            e@.visible_height == 20,
            e.tab().file_path is None,
            e.tab().text() == seq![Seq::<char>::empty()],
            !e.tab().modified,
    {
        let mut tabs: Vec<FileTab> = Vec::new();
        tabs.push(FileTab::new());
        EditorPanel { tabs, active_tab: 0, visible_height: 20 }
    }

    /// The active tab.
    pub fn active_tab(&self) -> (t: &FileTab)
        requires
            self.wf(),
        ensures
            *t == self.tab(),
    {
        &self.tabs[self.active_tab]
    }

    /// The active tab, for changing it.
    pub fn active_tab_mut(&mut self) -> (t: &mut FileTab)
        requires
            old(self).wf(),
        ensures
            *t == old(self).tab(),
            final(self)@.tabs == old(self)@.tabs.update(old(self)@.active as int, *final(t)),
            final(self)@.active == old(self)@.active,
            final(self)@.visible_height == old(self)@.visible_height,
    {
        let a = self.active_tab;
        &mut self.tabs[a]
    }

    /// Index of the active tab.
    pub fn active_tab_index(&self) -> (i: usize)
        ensures
            i == self@.active,
    {
        self.active_tab
    }

    /// The panel's title: the tab's name, ` *` when modified, the syntax in
    /// brackets, ` [DIFF]` while changes are tracked, and the scroll
    /// position text.
    pub fn title(&self, syntax: &str, scroll_info: &str) -> (t: String)
        requires
            self.wf(),
        ensures
            t@ == " "@ + buffer::tab_name(self.tab()) + (if self.tab().modified { " *"@ } else { ""@ }) + " ("@
                + syntax@ + ")"@ + (if self.tab().diff_tracker@.tracking { " [DIFF]"@ } else { ""@ }) + scroll_info@ + " "@,
    {
        let tab = self.active_tab();
        let name = tab.display_name();
        let t = concat(" ", name.as_str());
        let t = if tab.modified { concat(t.as_str(), " *") } else { t };
        let t = concat(t.as_str(), " (");
        let t = concat(t.as_str(), syntax);
        let t = concat(t.as_str(), ")");
        let t = if tab.diff_tracker.is_tracking() { concat(t.as_str(), " [DIFF]") } else { t };
        let t = concat(t.as_str(), scroll_info);
        let t = concat(t.as_str(), " ");
        proof {
            reveal_strlit("");
            assert(t@ =~= " "@ + buffer::tab_name(self.tab()) + (if self.tab().modified { " *"@ } else { ""@ }) + " ("@
                + syntax@ + ")"@ + (if self.tab().diff_tracker@.tracking { " [DIFF]"@ } else { ""@ }) + scroll_info@ + " "@);
        }
        t
    }

    /// Number of text lines visible at once.
    pub fn visible_height(&self) -> (h: usize)
        ensures
            h == self@.visible_height,
    {
        self.visible_height
    }

    /// New panel size: the text area is the height without borders and the
    /// tab bar.
    pub fn on_resize(&mut self, cols: u16, rows: u16)
        ensures
            final(self)@.visible_height == (if rows >= 3 { rows - 3 } else { 0 }),
            final(self)@.tabs == old(self)@.tabs,
            final(self)@.active == old(self)@.active,
    {
        self.visible_height = if rows >= 3 { (rows - 3) as usize } else { 0 };
    }

    /// Losing focus clears the selection.
    pub fn on_blur(&mut self)
        requires
            old(self).wf(),
        ensures
            final(self).wf(),
            Self::edited_active(old(self)@, final(self)@),
            final(self).tab().selection@ is None,
            final(self).tab().lines == old(self).tab().lines,
            final(self).tab().cursor == old(self).tab().cursor,
    {
        let a = self.active_tab;
        self.tabs[a].selection.clear();
    }

    /// Whether the editor has any tab.
    pub fn has_tabs(&self) -> (b: bool)
        ensures
            b == (self@.tabs.len() > 0),
    {
        self.tabs.len() > 0
    }

    /// Number of tabs.
    pub fn tab_count(&self) -> (n: usize)
        ensures
            n == self@.tabs.len(),
    {
        self.tabs.len()
    }

    /// Index of the first tab showing `path`.
    pub fn find_tab_by_path(&self, path: &str) -> (r: Option<usize>)
        ensures
            match r {
                Some(k) => k < self@.tabs.len() && tab_has_path(self@.tabs[k as int], path@)
                    && forall|j: int| 0 <= j < k ==> !tab_has_path(#[trigger] self@.tabs[j], path@),
                None => forall|j: int| 0 <= j < self@.tabs.len() ==> !tab_has_path(#[trigger] self@.tabs[j], path@),
            },
    {
        let mut k: usize = 0;
        while k < self.tabs.len()
            invariant
                k <= self@.tabs.len(),
                forall|j: int| 0 <= j < k ==> !tab_has_path(#[trigger] self@.tabs[j], path@),
            decreases self@.tabs.len() - k,
        {
            let found = match &self.tabs[k].file_path {
                Some(p) => crate::text::same_text(p.as_str(), path),
                None => false,
            };
            if found {
                return Some(k);
            }
            k = k + 1;
        }
        None
    }

    /// Whether a tab shows `path`.
    pub fn has_file_open(&self, path: &str) -> (b: bool)
        ensures
            b == exists|j: int| 0 <= j < self@.tabs.len() && tab_has_path(#[trigger] self@.tabs[j], path@),
    {
        match self.find_tab_by_path(path) {
            Some(k) => {
                assert(tab_has_path(self@.tabs[k as int], path@));
                true
            },
            None => false,
        }
    }

    /// Path of the active tab's file.
    pub fn current_file(&self) -> (p: Option<&String>)
        requires
            self.wf(),
        ensures
            p == match self.tab().file_path {
                Some(ref s) => Some(s),
                None => None::<&String>,
            },
    {
        match &self.tabs[self.active_tab].file_path {
            Some(s) => Some(s),
            None => None,
        }
    }

    /// Switch to a tab by index (ignored when out of range).
    pub fn switch_tab(&mut self, index: usize)
        ensures
            final(self)@.tabs == old(self)@.tabs,
            final(self)@.visible_height == old(self)@.visible_height,
            final(self)@.active == (if index < old(self)@.tabs.len() { index as nat } else { old(self)@.active }),
    {
        if index < self.tabs.len() {
            self.active_tab = index;
        }
    }

    /// Switch to the next tab, wrapping around.
    pub fn next_tab(&mut self)
        requires
            old(self).wf(),
        ensures
            final(self).wf(),
            final(self)@.tabs == old(self)@.tabs,
            final(self)@.visible_height == old(self)@.visible_height,
            final(self)@.active == (old(self)@.active + 1) % old(self)@.tabs.len(),
    {
        if self.tabs.len() > 0 {
            self.active_tab = (self.active_tab + 1) % self.tabs.len();
        }
    }

    /// Switch to the previous tab, wrapping around.
    pub fn prev_tab(&mut self)
        requires
            old(self).wf(),
        ensures
            final(self).wf(),
            final(self)@.tabs == old(self)@.tabs,
            final(self)@.visible_height == old(self)@.visible_height,
            final(self)@.active == (if old(self)@.active == 0 { old(self)@.tabs.len() - 1 } else { old(self)@.active - 1 }),
    {
        if self.tabs.len() > 0 {
            self.active_tab = if self.active_tab == 0 { self.tabs.len() - 1 } else { self.active_tab - 1 };
        }
    }

    /// Close a tab; the last remaining tab is replaced by an empty one.
    pub fn close_tab(&mut self, index: usize)
        requires
            old(self).wf(),
        ensures
            final(self).wf(),
            final(self)@.visible_height == old(self)@.visible_height,
            old(self)@.tabs.len() <= 1 ==> final(self)@.tabs.len() == 1
                && final(self)@.active == old(self)@.active
                && final(self)@.tabs[0].file_path is None
                && final(self)@.tabs[0].text() == seq![Seq::<char>::empty()]
                && !final(self)@.tabs[0].modified,
            old(self)@.tabs.len() > 1 && index < old(self)@.tabs.len() ==> final(self)@.tabs == old(self)@.tabs.remove(index as int)
                && final(self)@.active == (if old(self)@.active >= old(self)@.tabs.len() - 1 {
                    (old(self)@.tabs.len() - 2) as nat
                } else if old(self)@.active > index {
                    (old(self)@.active - 1) as nat
                } else {
                    old(self)@.active
                }),
            old(self)@.tabs.len() > 1 && index >= old(self)@.tabs.len() ==> final(self)@ == old(self)@,
    {
        if self.tabs.len() <= 1 {
            self.tabs.set(0, FileTab::new());
            return;
        }
        if index < self.tabs.len() {
            self.tabs.remove(index);
            if self.active_tab >= self.tabs.len() {
                self.active_tab = self.tabs.len() - 1;
            } else if self.active_tab > index {
                self.active_tab = self.active_tab - 1;
            }
        }
    }

    /// Close the active tab.
    pub fn close_current_tab(&mut self)
        requires
            old(self).wf(),
        ensures
            final(self).wf(),
            old(self)@.tabs.len() > 1 ==> final(self)@.tabs == old(self)@.tabs.remove(old(self)@.active as int),
            old(self)@.tabs.len() <= 1 ==> final(self)@.tabs.len() == 1 && final(self)@.tabs[0].file_path is None,
    {
        let a = self.active_tab;
        self.close_tab(a);
    }

    /// Whether the editor holds only its untouched initial tab.
    fn is_pristine(&self) -> (b: bool)
        ensures
            b == (self@.tabs.len() == 1 && self@.tabs[0].file_path is None && !self@.tabs[0].modified),
    {
        self.tabs.len() == 1 && self.tabs[0].file_path.is_none() && !self.tabs[0].modified
    }

    /// Show a new tab: it replaces the untouched initial tab, or is added
    /// at the end and activated.
    fn add_tab(&mut self, tab: FileTab)
        requires
            old(self).wf(),
        ensures
            final(self).wf(),
            final(self).tab() == tab,
            final(self)@.visible_height == old(self)@.visible_height,
            (old(self)@.tabs.len() == 1 && old(self)@.tabs[0].file_path is None && !old(self)@.tabs[0].modified)
                ==> final(self)@.tabs == seq![tab],
            !(old(self)@.tabs.len() == 1 && old(self)@.tabs[0].file_path is None && !old(self)@.tabs[0].modified)
                ==> final(self)@.tabs == old(self)@.tabs.push(tab),
    {
        if self.is_pristine() {
            self.tabs.set(0, tab);
            assert(self@.tabs =~= seq![tab]);
        } else {
            self.tabs.push(tab);
            self.active_tab = self.tabs.len() - 1;
        }
    }

    /// Open a file whose text is `content` in a new tab, or switch to the
    /// tab that already shows it.
    pub fn open(&mut self, path: &str, content: &str)
        requires
            old(self).wf(),
        ensures
            final(self).wf(),
            final(self)@.visible_height == old(self)@.visible_height,
            (exists|j: int| 0 <= j < old(self)@.tabs.len() && tab_has_path(#[trigger] old(self)@.tabs[j], path@))
                ==> final(self)@.tabs == old(self)@.tabs && tab_has_path(final(self).tab(), path@),
            !(exists|j: int| 0 <= j < old(self)@.tabs.len() && tab_has_path(#[trigger] old(self)@.tabs[j], path@)) ==> {
                &&& tab_has_path(final(self).tab(), path@)
                &&& final(self).tab().text() == file_text(content@)
                &&& !final(self).tab().modified
                &&& final(self).tab().cursor == (0usize, 0usize)
                &&& final(self).tab().highlight_dirty
            },
    {
        if let Some(idx) = self.find_tab_by_path(path) {
            self.active_tab = idx;
            return;
        }
        let mut tab = FileTab::new();
        tab.lines = lines_for(content);
        tab.file_path = Some(owned(path));
        tab.modified = false;
        tab.highlight_dirty = true;
        self.add_tab(tab);
    }

    /// Set up a tab for a new, not yet saved, file (or switch to its tab).
    pub fn set_new_file(&mut self, path: &str)
        requires
            old(self).wf(),
        ensures
            final(self).wf(),
            final(self)@.visible_height == old(self)@.visible_height,
            tab_has_path(final(self).tab(), path@),
            (exists|j: int| 0 <= j < old(self)@.tabs.len() && tab_has_path(#[trigger] old(self)@.tabs[j], path@))
                ==> final(self)@.tabs == old(self)@.tabs,
            !(exists|j: int| 0 <= j < old(self)@.tabs.len() && tab_has_path(#[trigger] old(self)@.tabs[j], path@)) ==> {
                &&& final(self).tab().text() == seq![Seq::<char>::empty()]
                &&& final(self).tab().modified
            },
    {
        if let Some(idx) = self.find_tab_by_path(path) {
            self.active_tab = idx;
            return;
        }
        let tab = FileTab::new_file(owned(path));
        self.add_tab(tab);
    }

    /// Start tracking changes of the active tab for diff display.
    pub fn start_diff_tracking(&mut self)
        requires
            old(self).wf(),
        ensures
            final(self).wf(),
            Self::edited_active(old(self)@, final(self)@),
            final(self).tab().diff_tracker@.tracking,
            final(self).tab().diff_tracker@.original == old(self).tab().text(),
            final(self).tab().diff_tracker@.changes.len() == 0,
            final(self).tab().diff_tracker@.ghosts.len() == 0,
            final(self).tab().lines == old(self).tab().lines,
            final(self).tab().cursor == old(self).tab().cursor,
            keeps_meta(old(self).tab(), final(self).tab()),
    {
        let a = self.active_tab;
        let tab = &mut self.tabs[a];
        tab.diff_tracker.start_tracking(&tab.lines);
    }

    /// Stop diff tracking on the active tab.
    pub fn stop_diff_tracking(&mut self)
        requires
            old(self).wf(),
        ensures
            final(self).wf(),
            Self::edited_active(old(self)@, final(self)@),
            !final(self).tab().diff_tracker@.tracking,
            final(self).tab().lines == old(self).tab().lines,
    {
        let a = self.active_tab;
        self.tabs[a].diff_tracker.stop_tracking();
    }

    /// Replace the active tab's content with text from the LLM, showing the
    /// diff against the content it replaces.
    pub fn apply_llm_modification(&mut self, content: &str)
        requires
            old(self).wf(),
        ensures
            final(self).wf(),
            Self::edited_active(old(self)@, final(self)@),
            final(self).tab().text() == file_text(content@),
            final(self).tab().diff_tracker@.tracking,
            final(self).tab().diff_tracker@.original == old(self).tab().text(),
            final(self).tab().diff_tracker@.changes == changes_from(
                diff_ops(old(self).tab().text(), file_text(content@)), file_text(content@).len()),
            final(self).tab().diff_tracker@.ghosts == ghosts_from(
                diff_ops(old(self).tab().text(), file_text(content@)), old(self).tab().text()),
            final(self).tab().modified,
            final(self).tab().highlight_dirty,
            final(self).tab().cursor == old(self).tab().cursor,
            keeps_meta(old(self).tab(), final(self).tab()),
    {
        self.start_diff_tracking();
        let a = self.active_tab;
        let tab = &mut self.tabs[a];
        tab.lines = lines_for(content);
        tab.diff_tracker.update_diff(&tab.lines);
        tab.modified = true;
        tab.highlight_dirty = true;
    }

    /// Apply LLM content to the tab of `path`, opening or creating it first.
    pub fn apply_modification_to_path(&mut self, path: &str, on_disk: &DiskFile, content: &str)
        requires
            old(self).wf(),
        ensures
            final(self).wf(),
            final(self).tab().text() == file_text(content@),
            final(self).tab().diff_tracker@.tracking,
            final(self).tab().modified,
            (exists|j: int| 0 <= j < old(self)@.tabs.len() && tab_has_path(#[trigger] old(self)@.tabs[j], path@))
                || !(on_disk is Unreadable) ==> tab_has_path(final(self).tab(), path@),
    {
        if let Some(idx) = self.find_tab_by_path(path) {
            self.active_tab = idx;
        } else {
            match on_disk {
                DiskFile::Text(text) => self.open(path, text.as_str()),
                DiskFile::Unreadable => {},
                DiskFile::Missing => self.set_new_file(path),
            }
        }
        self.apply_llm_modification(content);
    }

    /// Insert a line break at the cursor.
    pub fn newline(&mut self)
        requires
            old(self).wf(),
            old(self).tab().cursor_ok(),
        ensures
            final(self).wf(),
            Self::edited_active(old(self)@, final(self)@),
            line_split(old(self).tab(), final(self).tab()),
    {
        let a = self.active_tab;
        self.tabs[a].newline();
    }

    /// Delete the character before the cursor.
    pub fn backspace(&mut self)
        requires
            old(self).wf(),
            old(self).tab().cursor_ok(),
        ensures
            final(self).wf(),
            Self::edited_active(old(self)@, final(self)@),
            backspaced(old(self).tab(), final(self).tab()),
    {
        let a = self.active_tab;
        self.tabs[a].backspace();
    }

    /// Delete the character at the cursor.
    pub fn delete(&mut self)
        requires
            old(self).wf(),
            old(self).tab().cursor_ok(),
        ensures
            final(self).wf(),
            Self::edited_active(old(self)@, final(self)@),
            deleted_forward(old(self).tab(), final(self).tab()),
    {
        let a = self.active_tab;
        self.tabs[a].delete();
    }

    /// Insert a text at the cursor.
    pub fn insert_text(&mut self, text: &str)
        requires
            old(self).wf(),
            old(self).tab().cursor_ok(),
            old(self).tab().cursor.1 + text@.len() < usize::MAX,
        ensures
            final(self).wf(),
            Self::edited_active(old(self)@, final(self)@),
            text_inserted(old(self).tab(), final(self).tab(), text@),
    {
        let a = self.active_tab;
        self.tabs[a].insert_text(text);
    }

    /// Remove the text between two positions of the active tab.
    pub fn delete_range(&mut self, start: Position, end: Position)
        requires
            old(self).wf(),
            pos_le(start, end),
            end.line < old(self).tab().lines@.len(),
        ensures
            final(self).wf(),
            Self::edited_active(old(self)@, final(self)@),
            range_removed(old(self).tab(), final(self).tab(), start, end),
    {
        let a = self.active_tab;
        self.tabs[a].delete_range(start, end);
    }

    /// Where a text inserted at `start` ends.
    pub fn calculate_end_position(&self, start: Position, text: &str) -> (end: Position)
        requires
            str_lines(text@).len() == 1 ==> start.column + str_lines(text@)[0].len() <= usize::MAX,
            str_lines(text@).len() > 1 ==> start.line + str_lines(text@).len() - 1 <= usize::MAX,
        ensures
            end == end_position(start, text@),
    {
        calculate_end_position(start, text)
    }

    /// Move the cursor one step and keep it visible.
    pub fn move_cursor(&mut self, dir: Direction)
        requires
            old(self).wf(),
            old(self).tab().cursor_ok(),
            old(self).tab().cursor.1 < usize::MAX,
            old(self).tab().scroll.0 + old(self)@.visible_height <= usize::MAX,
        ensures
            final(self).wf(),
            Self::edited_active(old(self)@, final(self)@),
            final(self).tab().cursor == moved_cursor(old(self).tab().text(), old(self).tab().cursor, dir),
            final(self).tab().scroll.0 == visible_scroll(
                final(self).tab().cursor.0 as nat, old(self).tab().scroll.0 as nat, old(self)@.visible_height),
            final(self).tab().scroll.1 == old(self).tab().scroll.1,
            final(self).tab().cursor_ok(),
            same_but_view(old(self).tab(), final(self).tab()),
    {
        let a = self.active_tab;
        let h = self.visible_height;
        self.tabs[a].move_cursor(dir, h);
    }

    /// Scroll so that the cursor line is visible.
    pub fn ensure_cursor_visible(&mut self)
        requires
            old(self).wf(),
            old(self).tab().scroll.0 + old(self)@.visible_height <= usize::MAX,
            old(self).tab().cursor.0 < usize::MAX,
        ensures
            final(self).wf(),
            Self::edited_active(old(self)@, final(self)@),
            final(self).tab().scroll.0 == visible_scroll(
                old(self).tab().cursor.0 as nat, old(self).tab().scroll.0 as nat, old(self)@.visible_height),
            final(self).tab().scroll.1 == old(self).tab().scroll.1,
            final(self).tab().cursor == old(self).tab().cursor,
            same_but_view(old(self).tab(), final(self).tab()),
    {
        let a = self.active_tab;
        let h = self.visible_height;
        self.tabs[a].ensure_cursor_visible(h);
    }

    /// Scroll up by `n` lines.
    pub fn scroll_up(&mut self, n: usize)
        requires
            old(self).wf(),
        ensures
            final(self).wf(),
            Self::edited_active(old(self)@, final(self)@),
            final(self).tab().scroll.0 == (if old(self).tab().scroll.0 >= n { old(self).tab().scroll.0 - n } else { 0 }),
            final(self).tab().scroll.1 == old(self).tab().scroll.1,
            final(self).tab().cursor == old(self).tab().cursor,
            same_but_view(old(self).tab(), final(self).tab()),
    {
        let a = self.active_tab;
        self.tabs[a].scroll_up(n);
    }

    /// Scroll down by `n` lines, stopping at the last line.
    pub fn scroll_down(&mut self, n: usize)
        requires
            old(self).wf(),
            old(self).tab().scroll.0 + n <= usize::MAX,
        ensures
            final(self).wf(),
            Self::edited_active(old(self)@, final(self)@),
            final(self).tab().scroll.0 == (if old(self).tab().scroll.0 + n <= last_line(old(self).tab().text()) {
                old(self).tab().scroll.0 + n
            } else {
                last_line(old(self).tab().text()) as int
            }),
            final(self).tab().scroll.1 == old(self).tab().scroll.1,
            final(self).tab().cursor == old(self).tab().cursor,
            same_but_view(old(self).tab(), final(self).tab()),
    {
        let a = self.active_tab;
        self.tabs[a].scroll_down(n);
    }

    /// Scroll up half a page (at least one line).
    pub fn scroll_half_page_up(&mut self)
        requires
            old(self).wf(),
        ensures
            final(self).wf(),
            Self::edited_active(old(self)@, final(self)@),
            final(self).tab().scroll.0 == ({
                let step = if old(self)@.visible_height / 2 >= 1 { old(self)@.visible_height / 2 } else { 1 };
                if old(self).tab().scroll.0 >= step { old(self).tab().scroll.0 - step } else { 0 }
            }),
            final(self).tab().scroll.1 == old(self).tab().scroll.1,
            final(self).tab().cursor == old(self).tab().cursor,
            same_but_view(old(self).tab(), final(self).tab()),
    {
        let half = self.visible_height / 2;
        self.scroll_up(if half >= 1 { half } else { 1 });
    }

    /// Scroll down half a page (at least one line).
    pub fn scroll_half_page_down(&mut self)
        requires
            old(self).wf(),
            old(self).tab().scroll.0 + old(self)@.visible_height / 2 + 1 <= usize::MAX,
        ensures
            final(self).wf(),
            Self::edited_active(old(self)@, final(self)@),
            final(self).tab().scroll.0 == ({
                let step = if old(self)@.visible_height / 2 >= 1 { old(self)@.visible_height / 2 } else { 1 };
                let last = last_line(old(self).tab().text());
                if old(self).tab().scroll.0 + step <= last { old(self).tab().scroll.0 + step } else { last as int }
            }),
            final(self).tab().scroll.1 == old(self).tab().scroll.1,
            final(self).tab().cursor == old(self).tab().cursor,
            same_but_view(old(self).tab(), final(self).tab()),
    {
        let half = self.visible_height / 2;
        self.scroll_down(if half >= 1 { half } else { 1 });
    }

    /// Scroll up a page (the height less two lines).
    pub fn scroll_page_up(&mut self)
        requires
            old(self).wf(),
        ensures
            final(self).wf(),
            Self::edited_active(old(self)@, final(self)@),
            final(self).tab().scroll.0 == ({
                let step = if old(self)@.visible_height >= 2 { old(self)@.visible_height - 2 } else { 0 };
                if old(self).tab().scroll.0 >= step { old(self).tab().scroll.0 - step } else { 0 }
            }),
            final(self).tab().scroll.1 == old(self).tab().scroll.1,
            final(self).tab().cursor == old(self).tab().cursor,
            same_but_view(old(self).tab(), final(self).tab()),
    {
        let h = self.visible_height;
        self.scroll_up(if h >= 2 { h - 2 } else { 0 });
    }

    /// Scroll down a page (the height less two lines).
    pub fn scroll_page_down(&mut self)
        requires
            old(self).wf(),
            old(self).tab().scroll.0 + old(self)@.visible_height <= usize::MAX,
        ensures
            final(self).wf(),
            Self::edited_active(old(self)@, final(self)@),
            final(self).tab().scroll.0 == ({
                let step = if old(self)@.visible_height >= 2 { old(self)@.visible_height - 2 } else { 0 };
                let last = last_line(old(self).tab().text());
                if old(self).tab().scroll.0 + step <= last { old(self).tab().scroll.0 + step } else { last as int }
            }),
            final(self).tab().scroll.1 == old(self).tab().scroll.1,
            final(self).tab().cursor == old(self).tab().cursor,
            same_but_view(old(self).tab(), final(self).tab()),
    {
        let h = self.visible_height;
        self.scroll_down(if h >= 2 { h - 2 } else { 0 });
    }

    /// Go to the last line.
    pub fn scroll_to_bottom(&mut self)
        requires
            old(self).wf(),
        ensures
            final(self).wf(),
            Self::edited_active(old(self)@, final(self)@),
            final(self).tab().scroll.0 == last_line(old(self).tab().text()),
            final(self).tab().cursor == (last_line(old(self).tab().text()) as usize, 0usize),
            same_but_view(old(self).tab(), final(self).tab()),
    {
        let a = self.active_tab;
        self.tabs[a].scroll_to_bottom();
    }

    /// The labels of the tabs on the tab bar, in order.
    pub fn tab_titles(&self) -> (r: Vec<String>)
        ensures
            labels_view(r@) == tab_labels(self@.tabs),
    {
        let mut r: Vec<String> = Vec::new();
        let mut i: usize = 0;
        while i < self.tabs.len()
            invariant
                i <= self.tabs@.len(),
                self@.tabs == self.tabs@,
                labels_view(r@) == tab_labels(self.tabs@.take(i as int)),
            decreases self.tabs@.len() - i,
        {
            let t = &self.tabs[i];
            let name = t.display_name();
            let l = concat(" ", name.as_str());
            let l = if t.modified { concat(l.as_str(), "*") } else { l };
            let l = concat(l.as_str(), " ");
            proof {
                reveal_strlit("");
                assert(l@ =~= tab_label(*t));
                assert(tab_labels(self.tabs@.take(i + 1)) =~= tab_labels(self.tabs@.take(i as int)).push(tab_label(*t)));
            }
            r.push(l);
            assert(labels_view(r@) =~= tab_labels(self.tabs@.take(i + 1)));
            i = i + 1;
        }
        assert(self.tabs@.take(self.tabs@.len() as int) =~= self.tabs@);
        r
    }

    /// A left click at `(x, y)`, the text area being `content` and the tab
    /// bar `tab_bar`: on the scroll bar's arrow it goes to the last line, on
    /// its track above or below the thumb (rows `thumb_pos` to `thumb_pos +
    /// thumb_size`) it pages up or down, on a tab it switches to that tab.
    /// Returns whether the click was taken.
    pub fn handle_click(&mut self, x: u16, y: u16, content: Rect, tab_bar: Rect, thumb_pos: usize, thumb_size: usize)
        -> (taken: bool)
        requires
            old(self).wf(),
            click_fits(editor_bar(old(self).tab(), old(self)@.visible_height), x, y, content, tab_bar),
            thumb_pos + thumb_size <= usize::MAX,
            old(self).tab().scroll.0 + old(self)@.visible_height <= usize::MAX,
        ensures
            final(self).wf(),
            ({
                let c = click_of(editor_bar(old(self).tab(), old(self)@.visible_height), x, y, content, tab_bar,
                    tab_labels(old(self)@.tabs), thumb_pos, thumb_size);
                &&& taken == !(c is Nothing)
                &&& c is Nothing ==> final(self)@ == old(self)@
                &&& c matches EditorClick::Tab(i) ==> final(self)@.tabs == old(self)@.tabs
                    && final(self)@.visible_height == old(self)@.visible_height && final(self)@.active == i
                &&& c is ScrollToBottom ==> Self::edited_active(old(self)@, final(self)@)
                    && final(self).tab().scroll.0 == last_line(old(self).tab().text())
                    && final(self).tab().cursor == (last_line(old(self).tab().text()) as usize, 0usize)
                    && same_but_view(old(self).tab(), final(self).tab())
                &&& c is PageUp ==> Self::edited_active(old(self)@, final(self)@)
                    && final(self).tab().scroll.0 == paged_up(old(self).tab().scroll.0 as int, old(self)@.visible_height)
                    && final(self).tab().cursor == old(self).tab().cursor
                    && same_but_view(old(self).tab(), final(self).tab())
                &&& c is PageDown ==> Self::edited_active(old(self)@, final(self)@)
                    && final(self).tab().scroll.0 == paged_down(old(self).tab().scroll.0 as int, old(self)@.visible_height,
                        last_line(old(self).tab().text()))
                    && final(self).tab().cursor == old(self).tab().cursor
                    && same_but_view(old(self).tab(), final(self).tab())
            }),
    {
        let tab = &self.tabs[self.active_tab];
        let bar = ScrollBar::new(tab.scroll.0, self.visible_height, tab.lines.len());
        let labels = self.tab_titles();
        let c = click_target(bar, x, y, content, tab_bar, &labels, thumb_pos, thumb_size);
        proof {
            lemma_covering_in_range(labels_view(labels@), tab_bar.x as int, x as int, 0);
        }
        match c {
            EditorClick::ScrollToBottom => { self.scroll_to_bottom(); true }
            EditorClick::PageUp => { self.scroll_page_up(); true }
            EditorClick::PageDown => { self.scroll_page_down(); true }
            EditorClick::Tab(i) => { self.switch_tab(i); true }
            EditorClick::Nothing => false,
        }
    }

    /// The cursor as a position.
    pub fn cursor_pos(&self) -> (p: Position)
        requires
            self.wf(),
        ensures
            p.line == self.tab().cursor.0,
            p.column == self.tab().cursor.1,
    {
        let tab = &self.tabs[self.active_tab];
        Position::new(tab.cursor.0, tab.cursor.1)
    }

    /// With shift held, start a selection at the cursor unless one is
    /// active; without it, clear the selection.
    pub fn handle_selection(&mut self, shift_held: bool)
        requires
            old(self).wf(),
        ensures
            final(self).wf(),
            Self::edited_active(old(self)@, final(self)@),
            shift_held && old(self).tab().selection@ is None ==> final(self).tab().selection@
                == Some(Position { line: old(self).tab().cursor.0, column: old(self).tab().cursor.1 }),
            shift_held && old(self).tab().selection@ is Some ==> final(self).tab().selection@ == old(self).tab().selection@,
            !shift_held ==> final(self).tab().selection@ is None,
            final(self).tab().lines == old(self).tab().lines,
            final(self).tab().cursor == old(self).tab().cursor,
            final(self).tab().scroll == old(self).tab().scroll,
            final(self).tab().undo_stack == old(self).tab().undo_stack,
            final(self).tab().diff_tracker == old(self).tab().diff_tracker,
            final(self).tab().modified == old(self).tab().modified,
            final(self).tab().file_path == old(self).tab().file_path,
    {
        let a = self.active_tab;
        let tab = &mut self.tabs[a];
        let cursor_pos = Position::new(tab.cursor.0, tab.cursor.1);
        if shift_held {
            if !tab.selection.is_active() {
                tab.selection.start(cursor_pos);
            }
        } else {
            tab.selection.clear();
        }
    }

    /// The selected text of the active tab.
    pub fn get_selected_text(&self) -> (r: Option<String>)
        requires
            self.wf(),
        ensures
            ({
                let cur = Position { line: self.tab().cursor.0, column: self.tab().cursor.1 };
                match range_of(self.tab().selection@, cur) {
                    Some((start, end)) => match text_between(self.tab().text(), start, end) {
                        Some(t) => r is Some && r->0@ == t,
                        None => r is None,
                    },
                    None => r is None,
                }
            }),
    {
        let tab = &self.tabs[self.active_tab];
        let cursor_pos = Position::new(tab.cursor.0, tab.cursor.1);
        tab.selection.get_text(cursor_pos, tab.lines.as_slice())
    }

    /// Delete the selected text, record the deletion for undo, and put the
    /// cursor at the start of the range. Returns the deleted text.
    pub fn delete_selection(&mut self) -> (r: Option<String>)
        requires
            old(self).wf(),
            selection_deletable(old(self).tab()),
        ensures
            final(self).wf(),
            Self::edited_active(old(self)@, final(self)@),
            selection_deleted(old(self).tab(), final(self).tab()),
            sel_deletes(old(self).tab()) ==> r is Some && r->0@ == sel_text(old(self).tab()),
            !sel_deletes(old(self).tab()) ==> r is None,
    {
        let a = self.active_tab;
        let cursor_pos = self.cursor_pos();
        let range = self.tabs[a].selection.range(cursor_pos);
        match range {
            None => None,
            Some((start, end)) => {
                let deleted = match self.tabs[a].selection.get_text(cursor_pos, self.tabs[a].lines.as_slice()) {
                    Some(d) => d,
                    None => return None,
                };
                let ghost before = self.tab();
                let recorded = deleted.clone();
                self.tabs[a].undo_stack.push(EditOp::Delete { start, end, deleted_text: recorded });
                self.tabs[a].delete_range(start, end);
                self.tabs[a].selection.clear();
                self.tabs[a].cursor = (start.line, start.column);
                self.tabs[a].refresh_diff();
                Some(deleted)
            },
        }
    }

    /// Undo the last edit of the active tab; false when there is none.
    pub fn undo(&mut self) -> (r: bool)
        requires
            old(self).wf(),
            undo_ready(old(self).tab()),
        ensures
            final(self).wf(),
            Self::edited_active(old(self)@, final(self)@),
            r == (old(self).tab().undo_stack@.undo.len() > 0),
            !r ==> final(self)@ == old(self)@,
            r ==> undone(old(self).tab(), final(self).tab()),
    {
        let a = self.active_tab;
        if !self.tabs[a].undo_stack.can_undo() {
            return false;
        }
        let op = self.tabs[a].undo_stack.pop_undo();
        match op {
            None => false,
            Some(op) => {
                match &op {
                    EditOp::Insert { pos, text } => {
                        let end = calculate_end_position(*pos, text.as_str());
                        self.tabs[a].delete_range(*pos, end);
                        self.tabs[a].cursor = (pos.line, pos.column);
                    },
                    EditOp::Delete { start, deleted_text, .. } => {
                        self.tabs[a].cursor = (start.line, start.column);
                        self.tabs[a].insert_text(deleted_text.as_str());
                    },
                }
                self.tabs[a].undo_stack.push_redo(op);
                self.tabs[a].highlight_dirty = true;
                self.tabs[a].refresh_diff();
                true
            },
        }
    }

    /// Redo the last undone edit of the active tab; false when there is none.
    pub fn redo(&mut self) -> (r: bool)
        requires
            old(self).wf(),
            redo_ready(old(self).tab()),
        ensures
            final(self).wf(),
            Self::edited_active(old(self)@, final(self)@),
            r == (old(self).tab().undo_stack@.redo.len() > 0),
            !r ==> final(self)@ == old(self)@,
            r ==> redone(old(self).tab(), final(self).tab()),
    {
        let a = self.active_tab;
        if !self.tabs[a].undo_stack.can_redo() {
            return false;
        }
        let op = self.tabs[a].undo_stack.pop_redo();
        match op {
            None => false,
            Some(op) => {
                match &op {
                    EditOp::Insert { pos, text } => {
                        self.tabs[a].cursor = (pos.line, pos.column);
                        self.tabs[a].insert_text(text.as_str());
                    },
                    EditOp::Delete { start, end, .. } => {
                        self.tabs[a].delete_range(*start, *end);
                        self.tabs[a].cursor = (start.line, start.column);
                    },
                }
                self.tabs[a].undo_stack.push(op);
                self.tabs[a].highlight_dirty = true;
                self.tabs[a].refresh_diff();
                true
            },
        }
    }

    /// Paste a text: the selection (if any) is replaced by it, and the
    /// insertion is recorded for undo.
    pub fn paste(&mut self, text: String)
        requires
            old(self).wf(),
            paste_ready(old(self).tab(), text@),
        ensures
            final(self).wf(),
            Self::edited_active(old(self)@, final(self)@),
            pasted(old(self).tab(), final(self).tab(), text@),
    {
        let a = self.active_tab;
        let ghost t0 = self.tab();
        self.delete_selection();
        let ghost t1 = self.tab();
        let start_pos = self.cursor_pos();
        self.tabs[a].insert_text(text.as_str());
        self.tabs[a].undo_stack.push(EditOp::Insert { pos: start_pos, text });
    }

    /// Insert a character at the cursor.
    pub fn insert_char(&mut self, c: char)
        requires
            old(self).wf(),
            old(self).tab().cursor_ok(),
            old(self).tab().cursor.1 < usize::MAX,
        ensures
            final(self).wf(),
            Self::edited_active(old(self)@, final(self)@),
            char_inserted(old(self).tab(), final(self).tab(), c),
    {
        let a = self.active_tab;
        self.tabs[a].insert_char(c);
    }
}


/// The selection range of a tab, ordered.
impl Default for EditorPanel {
    /// A new editor with one empty tab.
    fn default() -> (e: Self)
        ensures
            e.wf(),
            e@.tabs.len() == 1,
            e@.active == 0,
            e@.visible_height == 20,
            e.tab().file_path is None,
            e.tab().text() == seq![Seq::<char>::empty()],
            !e.tab().modified,
    {
        Self::new()
    }
}

/// The labels of tabs, in order.
pub open spec fn tab_labels(tabs: Seq<FileTab>) -> Seq<Seq<char>> {
    tabs.map_values(|t: FileTab| tab_label(t))
}

/// The scroll bar of a tab shown `visible` lines at a time.
pub open spec fn editor_bar(t: FileTab, visible: nat) -> ScrollBar {
    ScrollBar {
        current: t.scroll.0,
        visible: visible as usize,
        total: t.lines@.len() as usize,
        scrollable: t.lines@.len() > visible,
    }
}

/// The first line shown after a page up from `top`, `h` lines being shown.
pub open spec fn paged_up(top: int, h: nat) -> int {
    let step = if h >= 2 { h - 2 } else { 0 };
    if top >= step { top - step } else { 0 }
}

/// The first line shown after a page down from `top`, `h` lines being
/// shown, stopping at line `last`.
pub open spec fn paged_down(top: int, h: nat, last: nat) -> int {
    let step = if h >= 2 { h - 2 } else { 0 };
    if top + step <= last { top + step } else { last as int }
}

/// A tab found on the bar is one of the tabs.
proof fn lemma_covering_in_range(labels: Seq<Seq<char>>, left: int, x: int, i: int)
    ensures
        covering_tab(labels, left, x, i) matches Some(k) ==> k < labels.len(),
    decreases labels.len() - i,
{
    if 0 <= i < labels.len() {
        lemma_covering_in_range(labels, left, x, i + 1);
    }
}

pub open spec fn sel_range(t: FileTab) -> Option<(Position, Position)> {
    range_of(t.selection@, Position { line: t.cursor.0, column: t.cursor.1 })
}

/// The selection of a tab holds text that deleting it removes.
pub open spec fn sel_deletes(t: FileTab) -> bool {
    match sel_range(t) {
        Some((s, e)) => text_between(t.text(), s, e) is Some,
        None => false,
    }
}

/// The selected text of a tab.
pub open spec fn sel_text(t: FileTab) -> Seq<char> {
    let (s, e) = sel_range(t)->0;
    text_between(t.text(), s, e)->0
}

/// Deleting the selection stays within the text.
pub open spec fn selection_deletable(t: FileTab) -> bool {
    sel_deletes(t) ==> (sel_range(t)->0).1.line < t.lines@.len()
}

/// `b` is `a` after deleting its selection (or `a` itself without one).
pub open spec fn selection_deleted(a: FileTab, b: FileTab) -> bool {
    if sel_deletes(a) {
        let (s, e) = sel_range(a)->0;
        &&& b.text() == text_remove_range_at(a.text(), s, e)
        &&& b.lines@.len() == a.lines@.len() - (e.line - s.line)
        &&& b.cursor == (s.line, s.column)
        &&& b.selection@ is None
        &&& b.undo_stack@.undo == pushed(a.undo_stack@.undo, b.undo_stack@.undo.last())
        &&& b.undo_stack@.undo.last() matches EditOp::Delete { start, end, deleted_text }
            && start == s && end == e && deleted_text@ == sel_text(a)
        &&& b.undo_stack@.redo.len() == 0
        &&& b.modified && b.highlight_dirty
        &&& b.file_path == a.file_path
        &&& b.scroll == a.scroll
        &&& diff_refreshed_tab(a, b)
    } else {
        b == a
    }
}

/// The diff display of `b` is refreshed against its text.
pub open spec fn diff_refreshed_tab(a: FileTab, b: FileTab) -> bool {
    buffer::diff_refreshed(a, b)
}

/// The last edit can be undone without leaving the text.
pub open spec fn undo_ready(t: FileTab) -> bool {
    t.undo_stack@.undo.len() > 0 ==> match t.undo_stack@.undo.last() {
        EditOp::Insert { pos, text } => {
            let ls = str_lines(text@);
            let e = end_position(pos, text@);
            &&& ls.len() == 1 ==> pos.column + ls[0].len() <= usize::MAX
            &&& ls.len() > 1 ==> pos.line + ls.len() - 1 <= usize::MAX
            &&& pos_le(pos, e)
            &&& e.line < t.lines@.len()
        },
        EditOp::Delete { start, deleted_text, .. } => {
            &&& start.line < t.lines@.len()
            &&& start.column + deleted_text@.len() < usize::MAX
        },
    }
}

/// `b` is `a` after undoing its last edit.
pub open spec fn undone(a: FileTab, b: FileTab) -> bool {
    let op = a.undo_stack@.undo.last();
    &&& b.undo_stack@.undo == a.undo_stack@.undo.drop_last()
    &&& b.undo_stack@.redo == a.undo_stack@.redo.push(op)
    &&& match op {
        EditOp::Insert { pos, text } => {
            &&& b.text() == text_remove_range_at(a.text(), pos, end_position(pos, text@))
            &&& b.cursor == (pos.line, pos.column)
        },
        EditOp::Delete { start, deleted_text, .. } => {
            let col = buffer::min_nat(start.column as nat, a.text()[start.line as int].len());
            let p = buffer::insert_point(start.line as nat, col, deleted_text@);
            &&& b.text() == buffer::text_insert_text(a.text(), start.line as int, col, deleted_text@)
            &&& deleted_text@.len() > 0 ==> b.cursor.0 == p.0 && b.cursor.1 == p.1
            &&& deleted_text@.len() == 0 ==> b.cursor == (start.line, start.column)
        },
    }
    &&& b.highlight_dirty
    &&& b.file_path == a.file_path
    &&& b.scroll == a.scroll
    &&& b.selection@ == a.selection@
    &&& diff_refreshed_tab(a, b)
}

/// The undone edit can be redone without leaving the text.
pub open spec fn redo_ready(t: FileTab) -> bool {
    t.undo_stack@.redo.len() > 0 ==> match t.undo_stack@.redo.last() {
        EditOp::Insert { pos, text } => {
            &&& pos.line < t.lines@.len()
            &&& pos.column + text@.len() < usize::MAX
        },
        EditOp::Delete { start, end, .. } => {
            &&& pos_le(start, end)
            &&& end.line < t.lines@.len()
        },
    }
}

/// `b` is `a` after redoing its last undone edit (recording it again clears
/// the rest of the redo stack).
pub open spec fn redone(a: FileTab, b: FileTab) -> bool {
    let op = a.undo_stack@.redo.last();
    &&& b.undo_stack@.undo == pushed(a.undo_stack@.undo, op)
    &&& b.undo_stack@.redo.len() == 0
    &&& match op {
        EditOp::Insert { pos, text } => {
            let col = buffer::min_nat(pos.column as nat, a.text()[pos.line as int].len());
            let p = buffer::insert_point(pos.line as nat, col, text@);
            &&& b.text() == buffer::text_insert_text(a.text(), pos.line as int, col, text@)
            &&& text@.len() > 0 ==> b.cursor.0 == p.0 && b.cursor.1 == p.1
            &&& text@.len() == 0 ==> b.cursor == (pos.line, pos.column)
        },
        EditOp::Delete { start, end, .. } => {
            &&& b.text() == text_remove_range_at(a.text(), start, end)
            &&& b.cursor == (start.line, start.column)
        },
    }
    &&& b.highlight_dirty
    &&& b.file_path == a.file_path
    &&& b.scroll == a.scroll
    &&& b.selection@ == a.selection@
    &&& diff_refreshed_tab(a, b)
}

/// Text after removing a range.
pub open spec fn text_remove_range_at(t: Seq<Seq<char>>, start: Position, end: Position) -> Seq<Seq<char>> {
    buffer::text_remove_range(t, start, end)
}

/// Where a paste inserts its text: the selection start when the selection is
/// deleted first, the cursor otherwise.
pub open spec fn paste_point(t: FileTab) -> (usize, usize) {
    if sel_deletes(t) {
        let (s, e) = sel_range(t)->0;
        (s.line, s.column)
    } else {
        t.cursor
    }
}

/// A paste stays within the text.
pub open spec fn paste_ready(t: FileTab, text: Seq<char>) -> bool {
    &&& selection_deletable(t)
    &&& !sel_deletes(t) ==> t.cursor_ok()
    &&& paste_point(t).1 + text.len() < usize::MAX
}

/// `b` is `a` after pasting `text`.
pub open spec fn pasted(a: FileTab, b: FileTab, text: Seq<char>) -> bool {
    let mid = if sel_deletes(a) {
        let (s, e) = sel_range(a)->0;
        text_remove_range_at(a.text(), s, e)
    } else {
        a.text()
    };
    let (row, c) = paste_point(a);
    let col = buffer::min_nat(c as nat, mid[row as int].len());
    let p = buffer::insert_point(row as nat, col, text);
    &&& b.text() == buffer::text_insert_text(mid, row as int, col, text)
    &&& text.len() > 0 ==> b.cursor.0 == p.0 && b.cursor.1 == p.1
    &&& text.len() == 0 ==> b.cursor == (row, c)
    &&& b.undo_stack@.undo.last() matches EditOp::Insert { pos, text: t } && pos.line == row && pos.column == c && t@ == text
    &&& b.undo_stack@.redo.len() == 0
    &&& b.file_path == a.file_path
    &&& b.scroll == a.scroll
    &&& !sel_deletes(a) ==> b.selection@ == a.selection@
    &&& sel_deletes(a) ==> b.selection@ is None
}

/// The text a paste is made into: the tab's text after its selection is
/// deleted.
pub open spec fn paste_base(a: FileTab) -> Seq<Seq<char>> {
    if sel_deletes(a) {
        let (s, e) = sel_range(a)->0;
        text_remove_range_at(a.text(), s, e)
    } else {
        a.text()
    }
}

/// Law: undoing a paste gives back the text the paste was made into, for
/// a pasted text without carriage returns that does not end with a newline,
/// pasted at a column inside its line.
pub proof fn law_undo_reverts_paste(a: FileTab, b: FileTab, c: FileTab, text: Seq<char>)
    requires
        paste_ready(a, text),
        pasted(a, b, text),
        undone(b, c),
        (paste_point(a).1 as nat) <= paste_base(a)[paste_point(a).0 as int].len(),
        paste_point(a).0 + text.len() <= usize::MAX,
        text.len() > 0 ==> text.last() != '\n',
        forall|k: int| 0 <= k < text.len() ==> text[k] != '\r',
    ensures
        c.text() == paste_base(a),
{
    let mid = paste_base(a);
    let (row, col) = paste_point(a);
    if sel_deletes(a) {
        let (s, e) = sel_range(a)->0;
        assert(a.text().len() == a.lines@.len());
        assert(mid.len() == a.text().len() - (e.line - s.line));
    }
    assert(row < mid.len());
    buffer::law_remove_undoes_insert(mid, row as nat, col as nat, text);
}

/// The tab shows the file at `path`.
pub open spec fn tab_has_path(t: FileTab, path: Seq<char>) -> bool {
    t.file_path is Some && t.file_path->0@ == path
}

/// The lines an editor shows for a file's text: its lines, or one empty line.
pub open spec fn file_text(content: Seq<char>) -> Seq<Seq<char>> {
    if str_lines(content).len() == 0 { seq![Seq::<char>::empty()] } else { str_lines(content) }
}

/// The lines of a text for a tab (at least one).
fn lines_for(content: &str) -> (r: Vec<String>)
    ensures
        lines_view(r@) == file_text(content@),
        r@.len() >= 1,
{
    let mut lines = lines_of(content);
    if lines.len() == 0 {
        lines.push(String::new());
        assert(lines_view(lines@) =~= seq![Seq::<char>::empty()]);
    }
    lines
}

/// What the disk holds at a path.
pub enum DiskFile {
    /// No file there.
    Missing,
    /// A file that could not be read.
    Unreadable,
    /// A file and its text.
    Text(String),
}

} // verus!
