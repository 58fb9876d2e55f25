//! The workspace selector: a list of workspaces with a "Create New" row, a
//! form for a new workspace (name and path, edited at a byte cursor), a
//! delete confirmation, and a folder browser for the path.
//!
//! The file system stays with the caller: after `start_folder_browse`,
//! `folder_enter` (when it moves into a folder) and `folder_parent`, it
//! lists `folder_browser_path()` and hands the listing to
//! `refresh_folder_entries`.

use vstd::prelude::*;
use vstd::utf8::{encode_utf8, decode_utf8, is_char_boundary};
use crate::panels::file_tree::{DirItem, FileEntry, listing_entries, sorted_entries, shown};
use crate::path::{parent_of, path_parent};
use crate::state::workspace::{WorkspaceId, WorkspaceView};
use crate::text::{owned, char_width, insert_char_at, remove_char_at, back_to_boundary, boundary_at_or_before};
use crate::ui::layout::{Rect, rect_contains};
use crate::keys::{KeyCode, KeyEvent, KeyModifiers};

verus! {

/// Mode of the workspace selector.
#[derive(Debug, Clone, Copy, PartialEq, Eq, Structural)]
pub enum SelectorMode {
    /// Listing workspaces.
    List,
    /// Creating a new workspace.
    CreateNew,
    /// Confirming a deletion.
    ConfirmDelete,
    /// Browsing folders for the new workspace's path.
    BrowseFolders,
}

/// Entry of the folder browser.
#[derive(Debug, Clone)]
pub struct FolderEntry {
    /// Display name.
    pub name: String,
    /// Full path.
    pub path: String,
    /// Whether this is the parent directory entry (`..`).
    pub is_parent: bool,
}

/// What a selector interaction asks of the application.
#[derive(Debug, Clone, PartialEq)]
pub enum WorkspaceSelectorAction {
    /// Switch to a workspace.
    Select(WorkspaceId),
    /// Create a workspace.
    Create { name: String, path: String },
    /// Delete a workspace.
    Delete(WorkspaceId),
    /// Close the selector.
    Cancel,
    /// Nothing to do.
    Nothing,
}

impl WorkspaceSelectorAction {
    /// Whether the selector, open as a modal, closes after this action: a
    /// selection, a creation or a cancel closes it; a deletion leaves it
    /// open.
    pub fn closes_modal(&self) -> (b: bool)
        ensures
            b == (self is Select || self is Create || self is Cancel),
    {
        matches!(self, WorkspaceSelectorAction::Select(_) | WorkspaceSelectorAction::Create { .. } | WorkspaceSelectorAction::Cancel)
    }
}

/// The mathematical value of an action.
pub enum ActionView {
    Select(WorkspaceId),
    Create(Seq<char>, Seq<char>),
    Delete(WorkspaceId),
    Cancel,
    Nothing,
}

/// The value of an action.
pub open spec fn action_view(a: WorkspaceSelectorAction) -> ActionView {
    match a {
        WorkspaceSelectorAction::Select(id) => ActionView::Select(id),
        WorkspaceSelectorAction::Create { name, path } => ActionView::Create(name@, path@),
        WorkspaceSelectorAction::Delete(id) => ActionView::Delete(id),
        WorkspaceSelectorAction::Cancel => ActionView::Cancel,
        WorkspaceSelectorAction::Nothing => ActionView::Nothing,
    }
}

/// The mathematical value of a folder entry.
#[verifier::ext_equal]
pub struct FolderView {
    pub name: Seq<char>,
    pub path: Seq<char>,
    pub is_parent: bool,
}

/// The value of a folder entry.
pub open spec fn folder_view(e: FolderEntry) -> FolderView {
    FolderView { name: e.name@, path: e.path@, is_parent: e.is_parent }
}

/// The values of folder entries.
pub open spec fn folder_views(es: Seq<FolderEntry>) -> Seq<FolderView> {
    es.map_values(|e: FolderEntry| folder_view(e))
}

/// A listed directory as a folder entry.
pub open spec fn listed_folder(e: FileEntry) -> FolderView {
    FolderView { name: e.name@, path: e.path@, is_parent: false }
}

/// The `..` entry of the browsed folder, when it has a parent.
pub open spec fn parent_rows(folder: Seq<char>) -> Seq<FolderView> {
    match path_parent(folder) {
        Some(p) => seq![FolderView { name: ".."@, path: p, is_parent: true }],
        None => seq![],
    }
}

/// The directories of a listing, in listing order.
pub open spec fn dirs_of(items: Seq<DirItem>) -> Seq<DirItem>
    decreases items.len(),
{
    if items.len() == 0 {
        seq![]
    } else if items.last().is_dir {
        dirs_of(items.drop_last()).push(items.last())
    } else {
        dirs_of(items.drop_last())
    }
}

/// The mathematical value of the selector.
#[verifier::ext_equal]
pub struct SelectorView {
    pub workspaces: Seq<WorkspaceView>,
    pub selected: nat,
    pub mode: SelectorMode,
    pub name: Seq<char>,
    pub path: Seq<char>,
    /// Byte offset into the field being edited.
    pub cursor: nat,
    /// 0: the name is edited; 1: the path.
    pub field: nat,
    pub active: Option<WorkspaceId>,
    pub modal_area: Option<Rect>,
    pub rows: Seq<Rect>,
    pub folder: Seq<char>,
    pub entries: Seq<FolderView>,
    pub folder_selected: nat,
    pub folder_scroll: nat,
}

/// Workspace selector modal.
pub struct WorkspaceSelectorModal {
    workspaces: Vec<WorkspaceView>,
    selected_index: usize,
    /// Current mode.
    pub mode: SelectorMode,
    new_workspace_name: String,
    new_workspace_path: String,
    cursor_pos: usize,
    edit_field: usize,
    active_workspace_id: Option<WorkspaceId>,
    modal_area: Option<Rect>,
    row_areas: Vec<Rect>,
    folder_browser_path: String,
    folder_entries: Vec<FolderEntry>,
    folder_selected: usize,
    folder_scroll: usize,
}

impl View for WorkspaceSelectorModal {
    type V = SelectorView;

    closed spec fn view(&self) -> SelectorView {
        SelectorView {
            workspaces: self.workspaces@,
            selected: self.selected_index as nat,
            mode: self.mode,
            name: self.new_workspace_name@,
            path: self.new_workspace_path@,
            cursor: self.cursor_pos as nat,
            field: self.edit_field as nat,
            active: self.active_workspace_id,
            modal_area: self.modal_area,
            rows: self.row_areas@,
            folder: self.folder_browser_path@,
            entries: folder_views(self.folder_entries@),
            folder_selected: self.folder_selected as nat,
            folder_scroll: self.folder_scroll as nat,
        }
    }
}

/// The field being edited.
pub open spec fn field_text(v: SelectorView) -> Seq<char> {
    if v.field == 0 { v.name } else { v.path }
}

/// `v` with the edited field replaced by `t`.
pub open spec fn with_field_text(v: SelectorView, t: Seq<char>) -> SelectorView {
    if v.field == 0 { SelectorView { name: t, ..v } } else { SelectorView { path: t, ..v } }
}

/// The cursor lies within the edited field, which is one of the two.
pub open spec fn selector_wf(v: SelectorView) -> bool {
    &&& v.field <= 1
    &&& v.cursor <= encode_utf8(field_text(v)).len()
}

/// One row up, wrapping from the first to the last of `total` rows.
pub open spec fn wrap_up(i: nat, total: nat) -> nat {
    if i > 0 { (i - 1) as nat } else { (total - 1) as nat }
}

/// One row down, wrapping from the last of `total` rows to the first.
pub open spec fn wrap_down(i: nat, total: nat) -> nat {
    if i < total - 1 { i + 1 } else { 0 }
}

/// The other field, with the cursor at its end.
pub open spec fn switch_field(v: SelectorView) -> SelectorView {
    let f: nat = if v.field == 0 { 1 } else { 0 };
    let w = SelectorView { field: f, ..v };
    SelectorView { cursor: encode_utf8(field_text(w)).len(), ..w }
}

/// The selector after Up.
pub open spec fn after_up(v: SelectorView) -> SelectorView {
    match v.mode {
        SelectorMode::List => SelectorView { selected: wrap_up(v.selected, v.workspaces.len() + 1), ..v },
        SelectorMode::CreateNew => switch_field(v),
        SelectorMode::ConfirmDelete => v,
        SelectorMode::BrowseFolders => SelectorView { folder_selected: wrap_up(v.folder_selected, v.entries.len() + 1), ..v },
    }
}

/// The selector after Down.
pub open spec fn after_down(v: SelectorView) -> SelectorView {
    match v.mode {
        SelectorMode::List => SelectorView { selected: wrap_down(v.selected, v.workspaces.len() + 1), ..v },
        SelectorMode::CreateNew => switch_field(v),
        SelectorMode::ConfirmDelete => v,
        SelectorMode::BrowseFolders => SelectorView { folder_selected: wrap_down(v.folder_selected, v.entries.len() + 1), ..v },
    }
}

/// The selector and the action after Enter.
pub open spec fn after_enter(v: SelectorView) -> (SelectorView, ActionView) {
    match v.mode {
        SelectorMode::List => if v.selected < v.workspaces.len() {
            (v, ActionView::Select(v.workspaces[v.selected as int].id))
        } else {
            (SelectorView { mode: SelectorMode::CreateNew, name: seq![], path: seq![], field: 0, cursor: 0, ..v }, ActionView::Nothing)
        },
        SelectorMode::CreateNew => if v.name.len() == 0 || v.path.len() == 0 {
            (v, ActionView::Nothing)
        } else {
            (v, ActionView::Create(v.name, v.path))
        },
        SelectorMode::ConfirmDelete => if v.selected < v.workspaces.len() {
            (SelectorView { mode: SelectorMode::List, ..v }, ActionView::Delete(v.workspaces[v.selected as int].id))
        } else {
            (SelectorView { mode: SelectorMode::List, ..v }, ActionView::Nothing)
        },
        SelectorMode::BrowseFolders => (v, ActionView::Nothing),
    }
}

/// The selector and the action after Escape.
pub open spec fn after_escape(v: SelectorView) -> (SelectorView, ActionView) {
    match v.mode {
        SelectorMode::List => (v, ActionView::Cancel),
        SelectorMode::CreateNew => (SelectorView { mode: SelectorMode::List, ..v }, ActionView::Nothing),
        SelectorMode::ConfirmDelete => (SelectorView { mode: SelectorMode::List, ..v }, ActionView::Nothing),
        SelectorMode::BrowseFolders => (SelectorView { mode: SelectorMode::CreateNew, ..v }, ActionView::Nothing),
    }
}

/// The selector after Delete: the confirmation, when a workspace row is
/// selected in the list.
pub open spec fn after_delete(v: SelectorView) -> SelectorView {
    if v.mode == SelectorMode::List && v.selected < v.workspaces.len() {
        SelectorView { mode: SelectorMode::ConfirmDelete, ..v }
    } else {
        v
    }
}

/// The selector and the action after `y`: Enter, in a confirmation.
pub open spec fn after_confirm(v: SelectorView) -> (SelectorView, ActionView) {
    if v.mode == SelectorMode::ConfirmDelete { after_enter(v) } else { (v, ActionView::Nothing) }
}

/// The selector after `n`: back to the list from a confirmation.
pub open spec fn after_deny(v: SelectorView) -> SelectorView {
    if v.mode == SelectorMode::ConfirmDelete { SelectorView { mode: SelectorMode::List, ..v } } else { v }
}

/// The selector after typing `c` in the form: `c` inserted at the byte
/// cursor of the edited field, the cursor after it.
pub open spec fn after_insert(v: SelectorView, c: char) -> SelectorView {
    if v.mode == SelectorMode::CreateNew {
        let bytes = encode_utf8(field_text(v));
        SelectorView {
            cursor: v.cursor + encode_utf8(seq![c]).len(),
            ..with_field_text(v, decode_utf8(bytes.take(v.cursor as int)) + seq![c] + decode_utf8(bytes.skip(v.cursor as int)))
        }
    } else {
        v
    }
}

/// A character can be inserted at the cursor: it lies on a character
/// boundary, and the field's length stays within `usize`.
pub open spec fn insertable(v: SelectorView) -> bool {
    &&& is_char_boundary(encode_utf8(field_text(v)), v.cursor as int)
    &&& encode_utf8(field_text(v)).len() + 4 <= usize::MAX
}

/// The selector after Backspace in the form: the character that ends at
/// the cursor (or that the cursor lies in) removed, the cursor at its
/// start.
pub open spec fn after_backspace(v: SelectorView) -> SelectorView {
    if v.mode == SelectorMode::CreateNew && v.cursor > 0 {
        let bytes = encode_utf8(field_text(v));
        let p = boundary_at_or_before(bytes, v.cursor - 1);
        SelectorView {
            cursor: p as nat,
            ..with_field_text(v, decode_utf8(bytes.take(p)) + decode_utf8(bytes.skip(p)).drop_first())
        }
    } else {
        v
    }
}

/// The selector after Left: the cursor one byte left.
pub open spec fn after_cursor_left(v: SelectorView) -> SelectorView {
    if v.cursor > 0 { SelectorView { cursor: (v.cursor - 1) as nat, ..v } } else { v }
}

/// The selector after Right: the cursor one byte right, up to the end of
/// the edited field.
pub open spec fn after_cursor_right(v: SelectorView) -> SelectorView {
    if v.cursor < encode_utf8(field_text(v)).len() { SelectorView { cursor: v.cursor + 1, ..v } } else { v }
}

/// The selector after opening the folder browser: at the typed path when
/// it is not empty and names a directory, else where it was.
pub open spec fn after_start_browse(v: SelectorView, typed_path_is_dir: bool) -> SelectorView {
    SelectorView {
        folder: if v.path.len() > 0 && typed_path_is_dir { v.path } else { v.folder },
        mode: SelectorMode::BrowseFolders,
        folder_selected: 0,
        folder_scroll: 0,
        ..v
    }
}

/// The selector after Enter in the folder browser, and whether a folder
/// was chosen: "Select This Folder" takes the folder as the path; an entry
/// is moved into.
pub open spec fn after_folder_enter(v: SelectorView) -> (SelectorView, bool) {
    if v.folder_selected == v.entries.len() {
        (SelectorView { path: v.folder, cursor: encode_utf8(v.folder).len(), mode: SelectorMode::CreateNew, field: 1, ..v }, true)
    } else if v.folder_selected < v.entries.len() {
        (SelectorView { folder: v.entries[v.folder_selected as int].path, folder_selected: 0, folder_scroll: 0, ..v }, false)
    } else {
        (v, false)
    }
}

/// The selector after moving to the parent folder, if there is one.
pub open spec fn after_folder_parent(v: SelectorView) -> SelectorView {
    match path_parent(v.folder) {
        Some(p) => SelectorView { folder: p, folder_selected: 0, folder_scroll: 0, ..v },
        None => v,
    }
}

/// The selector after leaving the folder browser.
pub open spec fn after_cancel_browse(v: SelectorView) -> SelectorView {
    SelectorView { mode: SelectorMode::CreateNew, ..v }
}


/// What a key does in the selector.
#[derive(Debug, Clone, Copy, PartialEq, Eq, Structural)]
pub enum SelectorKey {
    Up,
    Down,
    Enter,
    Escape,
    Delete,
    Confirm,
    Deny,
    Insert(char),
    Backspace,
    CursorLeft,
    CursorRight,
    StartBrowse,
    FolderEnter,
    FolderParent,
    CancelBrowse,
    Ignore,
}

/// The selector's reading of a key. In the folder browser: Escape leaves
/// it, Up and Down move, Enter opens or selects, Backspace goes to the
/// parent. Elsewhere: Up, Down, Enter and Delete; Tab moves between the
/// fields of the form; Ctrl+B in the form opens the folder browser; `y`
/// and `n` answer a confirmation; in the form, characters, Backspace,
/// Left and Right edit. Escape closes or steps back, except while a
/// workspace must be chosen (`initial`).
pub open spec fn selector_key_for(code: KeyCode, mods: KeyModifiers, mode: SelectorMode, initial: bool) -> SelectorKey {
    if mode == SelectorMode::BrowseFolders {
        match code {
            KeyCode::Esc => SelectorKey::CancelBrowse,
            KeyCode::Up => SelectorKey::Up,
            KeyCode::Down => SelectorKey::Down,
            KeyCode::Enter => SelectorKey::FolderEnter,
            KeyCode::Backspace => SelectorKey::FolderParent,
            _ => SelectorKey::Ignore,
        }
    } else {
        let creating = mode == SelectorMode::CreateNew;
        match code {
            KeyCode::Esc => if initial { SelectorKey::Ignore } else { SelectorKey::Escape },
            KeyCode::Up => SelectorKey::Up,
            KeyCode::Down => SelectorKey::Down,
            KeyCode::Tab => if creating { SelectorKey::Down } else { SelectorKey::Ignore },
            KeyCode::Enter => SelectorKey::Enter,
            KeyCode::Delete => SelectorKey::Delete,
            KeyCode::Char(c) => if c == 'b' && creating && mods.control {
                SelectorKey::StartBrowse
            } else if c == 'y' && mode == SelectorMode::ConfirmDelete {
                SelectorKey::Confirm
            } else if c == 'n' && mode == SelectorMode::ConfirmDelete {
                SelectorKey::Deny
            } else if creating {
                SelectorKey::Insert(c)
            } else {
                SelectorKey::Ignore
            },
            KeyCode::Backspace => if creating { SelectorKey::Backspace } else { SelectorKey::Ignore },
            KeyCode::Left => if creating { SelectorKey::CursorLeft } else { SelectorKey::Ignore },
            KeyCode::Right => if creating { SelectorKey::CursorRight } else { SelectorKey::Ignore },
            _ => SelectorKey::Ignore,
        }
    }
}

/// The selector's reading of `key` in `mode`.
pub fn selector_key(key: &KeyEvent, mode: SelectorMode, initial: bool) -> (k: SelectorKey)
    ensures
        k == selector_key_for(key.code, key.modifiers, mode, initial),
{
    if mode == SelectorMode::BrowseFolders {
        match key.code {
            KeyCode::Esc => SelectorKey::CancelBrowse,
            KeyCode::Up => SelectorKey::Up,
            KeyCode::Down => SelectorKey::Down,
            KeyCode::Enter => SelectorKey::FolderEnter,
            KeyCode::Backspace => SelectorKey::FolderParent,
            _ => SelectorKey::Ignore,
        }
    } else {
        let creating = mode == SelectorMode::CreateNew;
        match key.code {
            KeyCode::Esc => if initial { SelectorKey::Ignore } else { SelectorKey::Escape },
            KeyCode::Up => SelectorKey::Up,
            KeyCode::Down => SelectorKey::Down,
            KeyCode::Tab => if creating { SelectorKey::Down } else { SelectorKey::Ignore },
            KeyCode::Enter => SelectorKey::Enter,
            KeyCode::Delete => SelectorKey::Delete,
            KeyCode::Char(c) => if c == 'b' && creating && key.modifiers.control {
                SelectorKey::StartBrowse
            } else if c == 'y' && mode == SelectorMode::ConfirmDelete {
                SelectorKey::Confirm
            } else if c == 'n' && mode == SelectorMode::ConfirmDelete {
                SelectorKey::Deny
            } else if creating {
                SelectorKey::Insert(c)
            } else {
                SelectorKey::Ignore
            },
            KeyCode::Backspace => if creating { SelectorKey::Backspace } else { SelectorKey::Ignore },
            KeyCode::Left => if creating { SelectorKey::CursorLeft } else { SelectorKey::Ignore },
            KeyCode::Right => if creating { SelectorKey::CursorRight } else { SelectorKey::Ignore },
            _ => SelectorKey::Ignore,
        }
    }
}

/// What a key leads to: the application's action, and whether the caller
/// must list the browsed folder again.
#[derive(Debug, Clone)]
pub struct SelectorOutcome {
    pub action: WorkspaceSelectorAction,
    pub list_folder: bool,
}

/// The selector, the action and whether the browsed folder is to be
/// listed, after the key `k`. A character that would land inside a
/// character of the field (or overflow its length) is not inserted.
pub open spec fn after_key(v: SelectorView, k: SelectorKey, typed_path_is_dir: bool) -> (SelectorView, ActionView, bool) {
    match k {
        SelectorKey::Up => (after_up(v), ActionView::Nothing, false),
        SelectorKey::Down => (after_down(v), ActionView::Nothing, false),
        SelectorKey::Enter => (after_enter(v).0, after_enter(v).1, false),
        SelectorKey::Escape => (after_escape(v).0, after_escape(v).1, false),
        SelectorKey::Delete => (after_delete(v), ActionView::Nothing, false),
        SelectorKey::Confirm => (after_confirm(v).0, after_confirm(v).1, false),
        SelectorKey::Deny => (after_deny(v), ActionView::Nothing, false),
        SelectorKey::Insert(c) => if v.mode != SelectorMode::CreateNew || insertable(v) {
            (after_insert(v, c), ActionView::Nothing, false)
        } else {
            (v, ActionView::Nothing, false)
        },
        SelectorKey::Backspace => (after_backspace(v), ActionView::Nothing, false),
        SelectorKey::CursorLeft => (after_cursor_left(v), ActionView::Nothing, false),
        SelectorKey::CursorRight => (after_cursor_right(v), ActionView::Nothing, false),
        SelectorKey::StartBrowse => (after_start_browse(v, typed_path_is_dir), ActionView::Nothing, true),
        SelectorKey::FolderEnter => (after_folder_enter(v).0, ActionView::Nothing, v.folder_selected < v.entries.len()),
        SelectorKey::FolderParent => (after_folder_parent(v), ActionView::Nothing, path_parent(v.folder) is Some),
        SelectorKey::CancelBrowse => (after_cancel_browse(v), ActionView::Nothing, false),
        SelectorKey::Ignore => (v, ActionView::Nothing, false),
    }
}

/// The first index of a workspace with identifier `id`.
pub open spec fn first_with_id(ws: Seq<WorkspaceView>, id: WorkspaceId) -> Option<nat>
    decreases ws.len(),
{
    if ws.len() == 0 {
        None
    } else {
        match first_with_id(ws.drop_last(), id) {
            Some(i) => Some(i),
            None => if ws.last().id == id { Some((ws.len() - 1) as nat) } else { None },
        }
    }
}

/// The row selected when the list is shown: the active workspace's, else
/// the first.
pub open spec fn initial_selection(ws: Seq<WorkspaceView>, active: Option<WorkspaceId>) -> nat {
    match active {
        Some(a) => match first_with_id(ws, a) {
            Some(i) => i,
            None => 0,
        },
        None => 0,
    }
}

/// The first of `rows` that contains `(x, y)`.
pub open spec fn first_row_at(rows: Seq<Rect>, x: u16, y: u16) -> Option<nat>
    decreases rows.len(),
{
    if rows.len() == 0 {
        None
    } else {
        match first_row_at(rows.drop_last(), x, y) {
            Some(i) => Some(i),
            None => if rect_contains(rows.last(), x, y) { Some((rows.len() - 1) as nat) } else { None },
        }
    }
}

proof fn lemma_first_with_id_step(ws: Seq<WorkspaceView>, id: WorkspaceId, i: int)
    requires
        0 <= i < ws.len(),
        first_with_id(ws.take(i), id) is None,
    ensures
        first_with_id(ws.take(i + 1), id) == (if ws[i].id == id { Some(i as nat) } else { None::<nat> }),
{
    assert(ws.take(i + 1).drop_last() =~= ws.take(i));
}

proof fn lemma_first_row_step(rows: Seq<Rect>, x: u16, y: u16, i: int)
    requires
        0 <= i < rows.len(),
        first_row_at(rows.take(i), x, y) is None,
    ensures
        first_row_at(rows.take(i + 1), x, y) == (if rect_contains(rows[i], x, y) { Some(i as nat) } else { None::<nat> }),
{
    assert(rows.take(i + 1).drop_last() =~= rows.take(i));
}

/// The directories of a listing, in listing order.
fn directories(items: Vec<DirItem>) -> (r: Vec<DirItem>)
    ensures
        r@ == dirs_of(items@),
{
    let ghost all = items@;
    let mut out: Vec<DirItem> = Vec::new();
    let mut rest = items;
    let mut i: usize = 0;
    let n = rest.len();
    while rest.len() > 0
        invariant
            all.len() == n,
            i <= n,
            rest@ == all.skip(i as int),
            out@ == dirs_of(all.take(i as int)),
        decreases rest@.len(),
    {
        let item = rest.remove(0);
        assert(item == all[i as int]);
        assert(rest@ =~= all.skip(i + 1));
        assert(all.take(i + 1).drop_last() =~= all.take(i as int));
        if item.is_dir {
            out.push(item);
        }
        i = i + 1;
    }
    assert(all.take(n as int) =~= all);
    out
}

/// The rows of the workspace list inside `inner`: two lines per workspace
/// while a row ends no lower than two lines above the bottom, then the
/// "Create New" row if it fits.
pub open spec fn list_rows(inner: Rect, count: nat, k: nat, y: int) -> Seq<Rect>
    decreases count - k,
{
    if k < count {
        if y + 2 > inner.y + inner.height - 2 {
            create_row(inner, y)
        } else {
            seq![Rect { x: inner.x, y: y as u16, width: inner.width, height: 2 }] + list_rows(inner, count, k + 1, y + 2)
        }
    } else {
        create_row(inner, y)
    }
}

/// The "Create New" row at `y`, if it fits.
pub open spec fn create_row(inner: Rect, y: int) -> Seq<Rect> {
    if y + 2 <= inner.y + inner.height {
        seq![Rect { x: inner.x, y: y as u16, width: inner.width, height: 2 }]
    } else {
        seq![]
    }
}

/// The clickable rows of the workspace list drawn inside `inner`.
pub fn list_row_areas(inner: Rect, count: usize) -> (r: Vec<Rect>)
    ensures
        r@ == list_rows(inner, count as nat, 0, inner.y as int),
{
    let mut out: Vec<Rect> = Vec::new();
    let mut k: usize = 0;
    let mut y: u32 = inner.y as u32;
    let bottom: u32 = (inner.y as u32) + (inner.height as u32);
    while k < count && y + 2 + 2 <= bottom
        invariant
            k <= count,
            y <= bottom,
            bottom == inner.y + inner.height,
            y == inner.y + 2 * k,
            out@ + list_rows(inner, count as nat, k as nat, y as int) == list_rows(inner, count as nat, 0, inner.y as int),
        decreases count - k,
    {
        let row = Rect { x: inner.x, y: y as u16, width: inner.width, height: 2 };
        assert(list_rows(inner, count as nat, k as nat, y as int) == seq![row] + list_rows(inner, count as nat, (k + 1) as nat, y + 2));
        out.push(row);
        assert(out@ =~= out@.drop_last() + seq![row]);
        k = k + 1;
        y = y + 2;
    }
    if y + 2 <= bottom {
        out.push(Rect { x: inner.x, y: y as u16, width: inner.width, height: 2 });
    }
    assert(out@ =~= out@ + Seq::<Rect>::empty());
    out
}

impl WorkspaceSelectorModal {
    /// An empty selector in list mode; the folder browser starts at `/`
    /// until `set_folder_browser_path` moves it.
    pub fn new() -> (m: Self)
        ensures
            m@.workspaces == Seq::<WorkspaceView>::empty(),
            m@.selected == 0,
            m@.mode == SelectorMode::List,
            m@.name == Seq::<char>::empty(),
            m@.path == Seq::<char>::empty(),
            m@.cursor == 0,
            m@.field == 0,
            m@.active is None,
            m@.modal_area is None,
            m@.rows == Seq::<Rect>::empty(),
            m@.folder == "/"@,
            m@.entries == Seq::<FolderView>::empty(),
            m@.folder_selected == 0,
            m@.folder_scroll == 0,
            selector_wf(m@),
    {
        let m = WorkspaceSelectorModal {
            workspaces: Vec::new(),
            selected_index: 0,
            mode: SelectorMode::List,
            new_workspace_name: String::new(),
            new_workspace_path: String::new(),
            cursor_pos: 0,
            edit_field: 0,
            active_workspace_id: None,
            modal_area: None,
            row_areas: Vec::new(),
            folder_browser_path: owned("/"),
            folder_entries: Vec::new(),
            folder_selected: 0,
            folder_scroll: 0,
        };
        assert(folder_views(m.folder_entries@) =~= Seq::<FolderView>::empty());
        m
    }

    /// Set the folder the browser starts in.
    pub fn set_folder_browser_path(&mut self, path: String)
        ensures
            final(self)@ == (SelectorView { folder: path@, ..old(self)@ }),
    {
        self.folder_browser_path = path;
    }

    /// Show `workspaces`, with the active one (if listed) selected.
    pub fn set_workspaces(&mut self, workspaces: Vec<WorkspaceView>, active_id: Option<WorkspaceId>)
        ensures
            final(self)@ == (SelectorView {
                workspaces: workspaces@,
                active: active_id,
                selected: initial_selection(workspaces@, active_id),
                mode: SelectorMode::List,
                ..old(self)@
            }),
    {
        self.workspaces = workspaces;
        self.active_workspace_id = active_id;
        self.selected_index = 0;
        self.mode = SelectorMode::List;
        if let Some(active) = active_id {
            let mut i: usize = 0;
            while i < self.workspaces.len()
                invariant
                    i <= self.workspaces@.len(),
                    self.workspaces@ == workspaces@,
                    active_id == Some(active),
                    self@ == (SelectorView {
                        workspaces: workspaces@,
                        active: active_id,
                        selected: 0,
                        mode: SelectorMode::List,
                        ..old(self)@
                    }),
                    first_with_id(workspaces@.take(i as int), active) is None,
                decreases self.workspaces@.len() - i,
            {
                proof { lemma_first_with_id_step(workspaces@, active, i as int); }
                if self.workspaces[i].id == active {
                    self.selected_index = i;
                    assert(workspaces@.take(workspaces@.len() as int) =~= workspaces@);
                    proof { lemma_first_prefix_found(workspaces@, active, (i + 1) as int); }
                    return;
                }
                i = i + 1;
            }
            assert(workspaces@.take(workspaces@.len() as int) =~= workspaces@);
        }
    }

    /// The listed workspaces.
    pub fn workspaces(&self) -> (r: &Vec<WorkspaceView>)
        ensures
            r@ == self@.workspaces,
    {
        &self.workspaces
    }

    /// The selected row (the "Create New" row follows the workspaces).
    pub fn selected_index(&self) -> (r: usize)
        ensures
            r == self@.selected,
    {
        self.selected_index
    }

    /// The name typed for a new workspace.
    pub fn new_workspace_name(&self) -> (r: &str)
        ensures
            r@ == self@.name,
    {
        self.new_workspace_name.as_str()
    }

    /// The path typed for a new workspace.
    pub fn new_workspace_path(&self) -> (r: &str)
        ensures
            r@ == self@.path,
    {
        self.new_workspace_path.as_str()
    }

    /// The byte offset of the cursor in the edited field.
    pub fn cursor_pos(&self) -> (r: usize)
        ensures
            r == self@.cursor,
    {
        self.cursor_pos
    }

    /// The edited field: 0 for the name, 1 for the path.
    pub fn edit_field(&self) -> (r: usize)
        ensures
            r == self@.field,
    {
        self.edit_field
    }

    /// The folder being browsed.
    pub fn folder_browser_path(&self) -> (r: &str)
        ensures
            r@ == self@.folder,
    {
        self.folder_browser_path.as_str()
    }

    /// The entries of the folder browser.
    pub fn folder_entries(&self) -> (r: &Vec<FolderEntry>)
        ensures
            folder_views(r@) == self@.entries,
    {
        &self.folder_entries
    }

    /// The selected folder browser row ("Select This Folder" follows the
    /// entries).
    pub fn folder_selected(&self) -> (r: usize)
        ensures
            r == self@.folder_selected,
    {
        self.folder_selected
    }

    /// The selected workspace, if a workspace row is selected.
    pub fn selected_workspace(&self) -> (r: Option<&WorkspaceView>)
        ensures
            self@.selected < self@.workspaces.len() ==> r == Some(&self@.workspaces[self@.selected as int]),
            self@.selected >= self@.workspaces.len() ==> r is None,
    {
        if self.selected_index < self.workspaces.len() {
            Some(&self.workspaces[self.selected_index])
        } else {
            None
        }
    }

    /// Put the cursor at the end of the edited field.
    fn update_cursor_for_field(&mut self)
        requires
            old(self).edit_field <= 1,
        ensures
            final(self)@ == (SelectorView { cursor: encode_utf8(field_text(old(self)@)).len(), ..old(self)@ }),
    {
        self.cursor_pos = if self.edit_field == 0 {
            self.new_workspace_name.as_str().as_bytes().len()
        } else {
            self.new_workspace_path.as_str().as_bytes().len()
        };
    }

    /// Up: the previous row (wrapping), or the other field of the form.
    pub fn up(&mut self)
        requires
            selector_wf(old(self)@),
        ensures
            final(self)@ == after_up(old(self)@),
            selector_wf(final(self)@),
    {
        match self.mode {
            SelectorMode::List => {
                if self.selected_index > 0 {
                    self.selected_index = self.selected_index - 1;
                } else {
                    self.selected_index = self.workspaces.len();
                }
            }
            SelectorMode::CreateNew => {
                self.edit_field = if self.edit_field == 0 { 1 } else { 0 };
                self.update_cursor_for_field();
            }
            SelectorMode::ConfirmDelete => {}
            SelectorMode::BrowseFolders => {
                if self.folder_selected > 0 {
                    self.folder_selected = self.folder_selected - 1;
                } else {
                    self.folder_selected = self.folder_entries.len();
                }
            }
        }
    }

    /// Down: the next row (wrapping), or the other field of the form.
    pub fn down(&mut self)
        requires
            selector_wf(old(self)@),
        ensures
            final(self)@ == after_down(old(self)@),
            selector_wf(final(self)@),
    {
        match self.mode {
            SelectorMode::List => {
                if self.selected_index < self.workspaces.len() {
                    self.selected_index = self.selected_index + 1;
                } else {
                    self.selected_index = 0;
                }
            }
            SelectorMode::CreateNew => {
                self.edit_field = if self.edit_field == 0 { 1 } else { 0 };
                self.update_cursor_for_field();
            }
            SelectorMode::ConfirmDelete => {}
            SelectorMode::BrowseFolders => {
                if self.folder_selected < self.folder_entries.len() {
                    self.folder_selected = self.folder_selected + 1;
                } else {
                    self.folder_selected = 0;
                }
            }
        }
    }

    /// Enter: select the workspace, open the form from "Create New", ask
    /// to create a workspace when both fields are filled, or confirm a
    /// deletion.
    pub fn enter(&mut self) -> (a: WorkspaceSelectorAction)
        requires
            selector_wf(old(self)@),
        ensures
            (final(self)@, action_view(a)) == after_enter(old(self)@),
            selector_wf(final(self)@),
    {
        match self.mode {
            SelectorMode::List => {
                if self.selected_index < self.workspaces.len() {
                    WorkspaceSelectorAction::Select(self.workspaces[self.selected_index].id)
                } else {
                    self.mode = SelectorMode::CreateNew;
                    self.new_workspace_name = String::new();
                    self.new_workspace_path = String::new();
                    self.edit_field = 0;
                    self.cursor_pos = 0;
                    WorkspaceSelectorAction::Nothing
                }
            }
            SelectorMode::CreateNew => {
                if self.new_workspace_name.as_str().as_bytes().len() == 0 || self.new_workspace_path.as_str().as_bytes().len() == 0 {
                    proof {
                        if self.new_workspace_name@.len() > 0 {
                            assert(encode_utf8(self.new_workspace_name@).len() > 0);
                        }
                        if self.new_workspace_path@.len() > 0 {
                            assert(encode_utf8(self.new_workspace_path@).len() > 0);
                        }
                    }
                    WorkspaceSelectorAction::Nothing
                } else {
                    proof {
                        if self.new_workspace_name@.len() == 0 {
                            assert(encode_utf8(self.new_workspace_name@) =~= Seq::<u8>::empty());
                        }
                        if self.new_workspace_path@.len() == 0 {
                            assert(encode_utf8(self.new_workspace_path@) =~= Seq::<u8>::empty());
                        }
                    }
                    WorkspaceSelectorAction::Create {
                        name: owned(self.new_workspace_name.as_str()),
                        path: owned(self.new_workspace_path.as_str()),
                    }
                }
            }
            SelectorMode::ConfirmDelete => {
                self.mode = SelectorMode::List;
                if self.selected_index < self.workspaces.len() {
                    WorkspaceSelectorAction::Delete(self.workspaces[self.selected_index].id)
                } else {
                    WorkspaceSelectorAction::Nothing
                }
            }
            SelectorMode::BrowseFolders => WorkspaceSelectorAction::Nothing,
        }
    }

    /// Escape: close from the list, back to the list from the form or the
    /// confirmation, back to the form from the folder browser.
    pub fn escape(&mut self) -> (a: WorkspaceSelectorAction)
        ensures
            (final(self)@, action_view(a)) == after_escape(old(self)@),
    {
        match self.mode {
            SelectorMode::List => WorkspaceSelectorAction::Cancel,
            SelectorMode::CreateNew | SelectorMode::ConfirmDelete => {
                self.mode = SelectorMode::List;
                WorkspaceSelectorAction::Nothing
            }
            SelectorMode::BrowseFolders => {
                self.mode = SelectorMode::CreateNew;
                WorkspaceSelectorAction::Nothing
            }
        }
    }

    /// Delete: ask for confirmation when a workspace row is selected.
    pub fn delete(&mut self)
        ensures
            final(self)@ == after_delete(old(self)@),
    {
        if self.mode == SelectorMode::List && self.selected_index < self.workspaces.len() {
            self.mode = SelectorMode::ConfirmDelete;
        }
    }

    /// `y`: confirm a deletion (as Enter does), nothing otherwise.
    pub fn confirm(&mut self) -> (a: WorkspaceSelectorAction)
        requires
            selector_wf(old(self)@),
        ensures
            (final(self)@, action_view(a)) == after_confirm(old(self)@),
            selector_wf(final(self)@),
    {
        if self.mode == SelectorMode::ConfirmDelete {
            self.enter()
        } else {
            WorkspaceSelectorAction::Nothing
        }
    }

    /// `n`: back to the list from a confirmation.
    pub fn deny(&mut self)
        ensures
            final(self)@ == after_deny(old(self)@),
    {
        if self.mode == SelectorMode::ConfirmDelete {
            self.mode = SelectorMode::List;
        }
    }

    /// Whether the cursor lies on a character boundary of the edited field
    /// (it can fall inside a character after `cursor_left` or
    /// `cursor_right` over one of several bytes).
    pub fn cursor_on_boundary(&self) -> (b: bool)
        requires
            selector_wf(self@),
        ensures
            b == is_char_boundary(encode_utf8(field_text(self@)), self@.cursor as int),
    {
        if self.edit_field == 0 {
            self.new_workspace_name.as_str().is_char_boundary(self.cursor_pos)
        } else {
            self.new_workspace_path.as_str().is_char_boundary(self.cursor_pos)
        }
    }

    /// Insert `c` at the cursor of the edited field, in the form.
    pub fn insert_char(&mut self, c: char)
        requires
            selector_wf(old(self)@),
            old(self)@.mode == SelectorMode::CreateNew ==> insertable(old(self)@),
        ensures
            selector_wf(final(self)@),
            final(self)@ == after_insert(old(self)@, c),
    {
        if self.mode == SelectorMode::CreateNew {
            let w = char_width(c);
            if self.edit_field == 0 {
                self.new_workspace_name = insert_char_at(self.new_workspace_name.as_str(), self.cursor_pos, c);
            } else {
                self.new_workspace_path = insert_char_at(self.new_workspace_path.as_str(), self.cursor_pos, c);
            }
            self.cursor_pos = self.cursor_pos + w;
        }
    }

    /// Backspace in the form: remove the character that ends at the cursor
    /// (the one the cursor lies in, when it lies inside one).
    pub fn backspace(&mut self)
        requires
            selector_wf(old(self)@),
        ensures
            selector_wf(final(self)@),
            final(self)@ == after_backspace(old(self)@),
    {
        if self.mode == SelectorMode::CreateNew && self.cursor_pos > 0 {
            if self.edit_field == 0 {
                let p = back_to_boundary(self.new_workspace_name.as_str(), self.cursor_pos - 1);
                self.new_workspace_name = remove_char_at(self.new_workspace_name.as_str(), p);
                self.cursor_pos = p;
            } else {
                let p = back_to_boundary(self.new_workspace_path.as_str(), self.cursor_pos - 1);
                self.new_workspace_path = remove_char_at(self.new_workspace_path.as_str(), p);
                self.cursor_pos = p;
            }
        }
    }

    /// Move the cursor one byte left.
    pub fn cursor_left(&mut self)
        requires
            selector_wf(old(self)@),
        ensures
            selector_wf(final(self)@),
            final(self)@ == after_cursor_left(old(self)@),
    {
        if self.cursor_pos > 0 {
            self.cursor_pos = self.cursor_pos - 1;
        }
    }

    /// Move the cursor one byte right, up to the end of the edited field.
    pub fn cursor_right(&mut self)
        requires
            selector_wf(old(self)@),
        ensures
            selector_wf(final(self)@),
            final(self)@ == after_cursor_right(old(self)@),
    {
        let len = if self.edit_field == 0 {
            self.new_workspace_name.as_str().as_bytes().len()
        } else {
            self.new_workspace_path.as_str().as_bytes().len()
        };
        if self.cursor_pos < len {
            self.cursor_pos = self.cursor_pos + 1;
        }
    }

    /// Open the folder browser, at the typed path when it is not empty and
    /// names a directory (`typed_path_is_dir`, which the caller finds
    /// out), else where it was; the first row selected.
    pub fn start_folder_browse(&mut self, typed_path_is_dir: bool)
        ensures
            final(self)@ == after_start_browse(old(self)@, typed_path_is_dir),
    {
        if self.new_workspace_path.as_str().as_bytes().len() > 0 && typed_path_is_dir {
            proof {
                if self.new_workspace_path@.len() == 0 {
                    assert(encode_utf8(self.new_workspace_path@) =~= Seq::<u8>::empty());
                }
            }
            self.folder_browser_path = owned(self.new_workspace_path.as_str());
        } else {
            proof {
                if self.new_workspace_path@.len() > 0 {
                    assert(encode_utf8(self.new_workspace_path@).len() > 0);
                }
            }
        }
        self.mode = SelectorMode::BrowseFolders;
        self.folder_selected = 0;
        self.folder_scroll = 0;
    }

    /// Show the listing of the browsed folder: the `..` entry when the
    /// folder has a parent, then its directories that are not hidden, by
    /// name. A selection past the rows goes back to the first.
    pub fn refresh_folder_entries(&mut self, listing: Vec<DirItem>)
        ensures
            exists|listed: Seq<FileEntry>| {
                &&& sorted_entries(listed)
                &&& listed.to_multiset() == shown(dirs_of(listing@), 0).to_multiset()
                &&& final(self)@.entries == parent_rows(old(self)@.folder) + listed.map_values(|e: FileEntry| listed_folder(e))
            },
            final(self)@.folder_selected == (if old(self)@.folder_selected >= final(self)@.entries.len() + 1 { 0 } else { old(self)@.folder_selected }),
            final(self)@ == (SelectorView { entries: final(self)@.entries, folder_selected: final(self)@.folder_selected, ..old(self)@ }),
    {
        let mut entries: Vec<FolderEntry> = Vec::new();
        match parent_of(self.folder_browser_path.as_str()) {
            Some(p) => {
                entries.push(FolderEntry { name: owned(".."), path: p, is_parent: true });
            }
            None => {}
        }
        proof { reveal_strlit(".."); }
        assert(folder_views(entries@) =~= parent_rows(self.folder_browser_path@));
        let ghost head = entries@;
        let dirs = directories(listing);
        let sorted = listing_entries(dirs, 0);
        let mut i: usize = 0;
        while i < sorted.len()
            invariant
                i <= sorted@.len(),
                entries@.len() == head.len() + i,
                folder_views(entries@) =~= parent_rows(self.folder_browser_path@)
                    + sorted@.take(i as int).map_values(|e: FileEntry| listed_folder(e)),
            decreases sorted@.len() - i,
        {
            let e = &sorted[i];
            let ghost before = entries@;
            let fe = FolderEntry { name: owned(e.name.as_str()), path: owned(e.path.as_str()), is_parent: false };
            entries.push(fe);
            proof {
                assert(entries@ =~= before.push(fe));
                assert(folder_views(entries@) =~= folder_views(before).push(folder_view(fe)));
                assert(sorted@.take(i + 1).map_values(|e: FileEntry| listed_folder(e))
                    =~= sorted@.take(i as int).map_values(|e: FileEntry| listed_folder(e)).push(listed_folder(sorted@[i as int])));
                assert(sorted@.take(i + 1) =~= sorted@.take(i as int).push(sorted@[i as int]));
                assert(folder_views(entries@) =~= parent_rows(self.folder_browser_path@)
                    + sorted@.take(i + 1).map_values(|e: FileEntry| listed_folder(e)));
            }
            i = i + 1;
        }
        assert(sorted@.take(sorted@.len() as int) =~= sorted@);
        self.folder_entries = entries;
        if self.folder_selected > self.folder_entries.len() {
            self.folder_selected = 0;
        }
    }

    /// Enter in the folder browser: on "Select This Folder", take the
    /// folder as the path (cursor at its end) and return to the form
    /// (`true`); on an entry, move into it (`false`; the caller lists it).
    pub fn folder_enter(&mut self) -> (done: bool)
        requires
            selector_wf(old(self)@),
        ensures
            (final(self)@, done) == after_folder_enter(old(self)@),
            selector_wf(final(self)@),
    {
        if self.folder_selected == self.folder_entries.len() {
            self.new_workspace_path = owned(self.folder_browser_path.as_str());
            self.cursor_pos = self.new_workspace_path.as_str().as_bytes().len();
            self.mode = SelectorMode::CreateNew;
            self.edit_field = 1;
            return true;
        }
        if self.folder_selected < self.folder_entries.len() {
            let p = owned(self.folder_entries[self.folder_selected].path.as_str());
            self.folder_browser_path = p;
            self.folder_selected = 0;
            self.folder_scroll = 0;
        }
        false
    }

    /// Backspace in the folder browser: move to the parent folder, if any
    /// (the caller lists it).
    pub fn folder_parent(&mut self)
        ensures
            final(self)@ == after_folder_parent(old(self)@),
    {
        if let Some(p) = parent_of(self.folder_browser_path.as_str()) {
            self.folder_browser_path = p;
            self.folder_selected = 0;
            self.folder_scroll = 0;
        }
    }

    /// Leave the folder browser for the form.
    pub fn cancel_browse(&mut self)
        ensures
            final(self)@ == after_cancel_browse(old(self)@),
    {
        self.mode = SelectorMode::CreateNew;
    }

    /// Record where the modal and its list rows were drawn.
    pub fn set_hit_areas(&mut self, modal_area: Rect, rows: Vec<Rect>)
        ensures
            final(self)@ == (SelectorView { modal_area: Some(modal_area), rows: rows@, ..old(self)@ }),
    {
        self.modal_area = Some(modal_area);
        self.row_areas = rows;
    }

    /// Handle a key. `initial` is set while a workspace must be chosen
    /// (Escape does not close then); `typed_path_is_dir` tells whether the
    /// typed path names a directory, for Ctrl+B.
    pub fn handle_key(&mut self, key: &KeyEvent, initial: bool, typed_path_is_dir: bool) -> (o: SelectorOutcome)
        requires
            selector_wf(old(self)@),
        ensures
            selector_wf(final(self)@),
            (final(self)@, action_view(o.action), o.list_folder)
                == after_key(old(self)@, selector_key_for(key.code, key.modifiers, old(self)@.mode, initial), typed_path_is_dir),
    {
        let k = selector_key(key, self.mode, initial);
        let mut action = WorkspaceSelectorAction::Nothing;
        let mut list_folder = false;
        match k {
            SelectorKey::Up => self.up(),
            SelectorKey::Down => self.down(),
            SelectorKey::Enter => { action = self.enter(); }
            SelectorKey::Escape => { action = self.escape(); }
            SelectorKey::Delete => self.delete(),
            SelectorKey::Confirm => { action = self.confirm(); }
            SelectorKey::Deny => self.deny(),
            SelectorKey::Insert(c) => {
                let len = if self.edit_field == 0 {
                    self.new_workspace_name.as_str().as_bytes().len()
                } else {
                    self.new_workspace_path.as_str().as_bytes().len()
                };
                if self.mode != SelectorMode::CreateNew || (self.cursor_on_boundary() && len <= usize::MAX - 4) {
                    self.insert_char(c);
                }
            }
            SelectorKey::Backspace => self.backspace(),
            SelectorKey::CursorLeft => self.cursor_left(),
            SelectorKey::CursorRight => self.cursor_right(),
            SelectorKey::StartBrowse => {
                self.start_folder_browse(typed_path_is_dir);
                list_folder = true;
            }
            SelectorKey::FolderEnter => {
                list_folder = self.folder_selected < self.folder_entries.len();
                self.folder_enter();
            }
            SelectorKey::FolderParent => {
                list_folder = parent_of(self.folder_browser_path.as_str()).is_some();
                self.folder_parent();
            }
            SelectorKey::CancelBrowse => self.cancel_browse(),
            SelectorKey::Ignore => {}
        }
        SelectorOutcome { action, list_folder }
    }

    /// Whether `(x, y)` lies inside the drawn modal.
    pub fn contains(&self, x: u16, y: u16) -> (b: bool)
        ensures
            b == (self@.modal_area matches Some(r) && rect_contains(r, x, y)),
    {
        match self.modal_area {
            Some(r) => r.contains(x, y),
            None => false,
        }
    }

    /// A click in list mode: the first row under it is selected and entered.
    pub fn handle_click(&mut self, x: u16, y: u16) -> (a: WorkspaceSelectorAction)
        requires
            selector_wf(old(self)@),
        ensures
            selector_wf(final(self)@),
            old(self)@.mode != SelectorMode::List ==> final(self)@ == old(self)@ && a == WorkspaceSelectorAction::Nothing,
            old(self)@.mode == SelectorMode::List ==> match first_row_at(old(self)@.rows, x, y) {
                Some(i) => (final(self)@, action_view(a)) == after_enter(SelectorView { selected: i, ..old(self)@ }),
                None => final(self)@ == old(self)@ && a == WorkspaceSelectorAction::Nothing,
            },
    {
        if self.mode != SelectorMode::List {
            return WorkspaceSelectorAction::Nothing;
        }
        let mut i: usize = 0;
        while i < self.row_areas.len()
            invariant
                i <= self.row_areas@.len(),
                self@ == old(self)@,
                selector_wf(old(self)@),
                self.mode == SelectorMode::List,
                first_row_at(self.row_areas@.take(i as int), x, y) is None,
            decreases self.row_areas@.len() - i,
        {
            proof { lemma_first_row_step(self.row_areas@, x, y, i as int); }
            if self.row_areas[i].contains(x, y) {
                proof { lemma_first_row_prefix_found(self.row_areas@, x, y, (i + 1) as int); }
                self.selected_index = i;
                assert(self@ == (SelectorView { selected: i as nat, ..old(self)@ }));
                return self.enter();
            }
            i = i + 1;
        }
        assert(self.row_areas@.take(self.row_areas@.len() as int) =~= self.row_areas@);
        WorkspaceSelectorAction::Nothing
    }
}

proof fn lemma_first_prefix_found(ws: Seq<WorkspaceView>, id: WorkspaceId, k: int)
    requires
        0 <= k <= ws.len(),
        first_with_id(ws.take(k), id) is Some,
    ensures
        first_with_id(ws, id) == first_with_id(ws.take(k), id),
    decreases ws.len() - k,
{
    if k < ws.len() {
        assert(ws.take(k + 1).drop_last() =~= ws.take(k));
        lemma_first_prefix_found(ws, id, k + 1);
    } else {
        assert(ws.take(k) =~= ws);
    }
}

proof fn lemma_first_row_prefix_found(rows: Seq<Rect>, x: u16, y: u16, k: int)
    requires
        0 <= k <= rows.len(),
        first_row_at(rows.take(k), x, y) is Some,
    ensures
        first_row_at(rows, x, y) == first_row_at(rows.take(k), x, y),
    decreases rows.len() - k,
{
    if k < rows.len() {
        assert(rows.take(k + 1).drop_last() =~= rows.take(k));
        lemma_first_row_prefix_found(rows, x, y, k + 1);
    } else {
        assert(rows.take(k) =~= rows);
    }
}

impl Default for WorkspaceSelectorModal {
    fn default() -> (m: Self)
        ensures
            m@.workspaces == Seq::<WorkspaceView>::empty(),
            m@.mode == SelectorMode::List,
            selector_wf(m@),
    {
        Self::new()
    }
}


/// In the list and in the folder browser, Down undoes Up (and Up undoes
/// Down) while the selection lies on a row.
pub proof fn law_down_undoes_up(v: SelectorView)
    requires
        v.mode == SelectorMode::List ==> v.selected <= v.workspaces.len(),
        v.mode == SelectorMode::BrowseFolders ==> v.folder_selected <= v.entries.len(),
        v.mode == SelectorMode::List || v.mode == SelectorMode::BrowseFolders,
    ensures
        after_down(after_up(v)) == v,
        after_up(after_down(v)) == v,
{
}

} // verus!
