use term_ide::keys::{KeyCode, KeyEvent, KeyModifiers};
use term_ide::panels::file_tree::DirItem;
use term_ide::state::workspace::{WorkspaceId, WorkspaceList, WorkspaceView};
use term_ide::ui::layout::Rect;
use term_ide::ui::workspace_selector::{
    list_row_areas, selector_key, SelectorKey, SelectorMode, WorkspaceSelectorAction, WorkspaceSelectorModal,
};

fn ws(id: u64, name: &str) -> WorkspaceView {
    WorkspaceView { id: WorkspaceId(id), name: name.to_string(), path: format!("/ws/{}", name) }
}

fn two() -> WorkspaceSelectorModal {
    let mut m = WorkspaceSelectorModal::new();
    m.set_workspaces(vec![ws(7, "alpha"), ws(9, "beta")], None);
    m
}

fn key(code: KeyCode) -> KeyEvent {
    KeyEvent::plain(code)
}

#[test]
fn test_workspace_selector_new() {
    let selector = WorkspaceSelectorModal::new();
    assert!(selector.workspaces().is_empty());
    assert_eq!(selector.mode, SelectorMode::List);
}

#[test]
fn test_escape_cancels() {
    let mut selector = WorkspaceSelectorModal::new();
    let action = selector.escape();
    assert_eq!(action, WorkspaceSelectorAction::Cancel);
}

#[test]
fn test_escape_from_create_returns_to_list() {
    let mut selector = WorkspaceSelectorModal::new();
    selector.mode = SelectorMode::CreateNew;
    let action = selector.escape();
    assert_eq!(action, WorkspaceSelectorAction::Nothing);
    assert_eq!(selector.mode, SelectorMode::List);
}

#[test]
fn active_workspace_is_selected_when_listed() {
    let mut m = WorkspaceSelectorModal::new();
    m.set_workspaces(vec![ws(1, "a"), ws(2, "b"), ws(3, "c")], Some(WorkspaceId(3)));
    assert_eq!(m.selected_index(), 2);
    m.set_workspaces(vec![ws(1, "a")], Some(WorkspaceId(99)));
    assert_eq!(m.selected_index(), 0);
}

#[test]
fn list_navigation_wraps_over_the_create_row() {
    let mut m = two();
    m.up();
    assert_eq!(m.selected_index(), 2);
    m.down();
    assert_eq!(m.selected_index(), 0);
    m.down();
    m.down();
    assert_eq!(m.selected_index(), 2);
    m.down();
    assert_eq!(m.selected_index(), 0);
}

#[test]
fn down_undoes_up_in_the_list() {
    let mut m = two();
    for start in 0..3 {
        while m.selected_index() != start {
            m.down();
        }
        m.up();
        m.down();
        assert_eq!(m.selected_index(), start);
    }
}

#[test]
fn enter_selects_a_workspace() {
    let mut m = two();
    m.down();
    assert_eq!(m.enter(), WorkspaceSelectorAction::Select(WorkspaceId(9)));
    assert_eq!(m.mode, SelectorMode::List);
}

#[test]
fn create_flow_types_both_fields() {
    let mut m = two();
    m.up();
    assert_eq!(m.enter(), WorkspaceSelectorAction::Nothing);
    assert_eq!(m.mode, SelectorMode::CreateNew);
    for c in "web".chars() {
        m.insert_char(c);
    }
    assert_eq!(m.enter(), WorkspaceSelectorAction::Nothing);
    m.down();
    assert_eq!(m.edit_field(), 1);
    for c in "/srv".chars() {
        m.insert_char(c);
    }
    assert_eq!(
        m.enter(),
        WorkspaceSelectorAction::Create { name: "web".to_string(), path: "/srv".to_string() }
    );
}

#[test]
fn editing_works_on_bytes_of_multibyte_text() {
    let mut m = two();
    m.up();
    m.enter();
    m.insert_char('é');
    assert_eq!(m.cursor_pos(), 2);
    m.insert_char('x');
    assert_eq!(m.new_workspace_name(), "éx");
    m.cursor_left();
    assert_eq!(m.cursor_pos(), 2);
    m.backspace();
    assert_eq!(m.new_workspace_name(), "x");
    assert_eq!(m.cursor_pos(), 0);
    m.cursor_right();
    m.cursor_right();
    assert_eq!(m.cursor_pos(), 1);
}

#[test]
fn backspace_inside_a_character_removes_it() {
    let mut m = two();
    m.up();
    m.enter();
    m.insert_char('ü');
    m.insert_char('a');
    m.cursor_left();
    m.cursor_left();
    assert_eq!(m.cursor_pos(), 1);
    m.backspace();
    assert_eq!(m.new_workspace_name(), "a");
    assert_eq!(m.cursor_pos(), 0);
}

#[test]
fn delete_needs_confirmation() {
    let mut m = two();
    m.delete();
    assert_eq!(m.mode, SelectorMode::ConfirmDelete);
    m.deny();
    assert_eq!(m.mode, SelectorMode::List);
    m.delete();
    assert_eq!(m.confirm(), WorkspaceSelectorAction::Delete(WorkspaceId(7)));
    assert_eq!(m.mode, SelectorMode::List);
    m.up();
    m.delete();
    assert_eq!(m.mode, SelectorMode::List);
}

#[test]
fn folder_browser_lists_directories_by_name() {
    let mut m = two();
    m.set_folder_browser_path("/home/u".to_string());
    m.up();
    m.enter();
    m.start_folder_browse(false);
    assert_eq!(m.mode, SelectorMode::BrowseFolders);
    assert_eq!(m.folder_browser_path(), "/home/u");
    m.refresh_folder_entries(vec![
        DirItem { path: "/home/u/zeta".to_string(), name: "zeta".to_string(), is_dir: true },
        DirItem { path: "/home/u/.cache".to_string(), name: ".cache".to_string(), is_dir: true },
        DirItem { path: "/home/u/notes.txt".to_string(), name: "notes.txt".to_string(), is_dir: false },
        DirItem { path: "/home/u/alpha".to_string(), name: "alpha".to_string(), is_dir: true },
    ]);
    let names: Vec<&str> = m.folder_entries().iter().map(|e| e.name.as_str()).collect();
    assert_eq!(names, vec!["..", "alpha", "zeta"]);
    assert!(m.folder_entries()[0].is_parent);
    assert_eq!(m.folder_entries()[0].path, "/home");
    m.down();
    assert!(!m.folder_enter());
    assert_eq!(m.folder_browser_path(), "/home/u/alpha");
    m.refresh_folder_entries(vec![]);
    m.down();
    assert!(m.folder_enter());
    assert_eq!(m.mode, SelectorMode::CreateNew);
    assert_eq!(m.new_workspace_path(), "/home/u/alpha");
    assert_eq!(m.edit_field(), 1);
    assert_eq!(m.cursor_pos(), "/home/u/alpha".len());
}

#[test]
fn folder_parent_moves_up() {
    let mut m = WorkspaceSelectorModal::new();
    m.set_folder_browser_path("/a/b".to_string());
    m.folder_parent();
    assert_eq!(m.folder_browser_path(), "/a");
    m.folder_parent();
    assert_eq!(m.folder_browser_path(), "/");
    m.folder_parent();
    assert_eq!(m.folder_browser_path(), "/");
}

#[test]
fn click_on_a_row_enters_it() {
    let mut m = two();
    let rows = list_row_areas(Rect::new(10, 5, 40, 12), 2);
    assert_eq!(rows.len(), 3);
    assert_eq!(rows[1], Rect::new(10, 7, 40, 2));
    m.set_hit_areas(Rect::new(9, 4, 42, 14), rows);
    assert!(m.contains(9, 4));
    assert!(!m.contains(51, 4));
    assert_eq!(m.handle_click(12, 8), WorkspaceSelectorAction::Select(WorkspaceId(9)));
    assert_eq!(m.handle_click(12, 30), WorkspaceSelectorAction::Nothing);
}

#[test]
fn list_rows_stop_two_lines_above_the_bottom() {
    let rows = list_row_areas(Rect::new(0, 0, 30, 8), 10);
    assert_eq!(rows.len(), 4);
    assert_eq!(rows[2].y, 4);
    assert_eq!(rows[3].y, 6);
}

#[test]
fn keys_follow_the_mode() {
    let ctrl_b = KeyEvent::new(KeyCode::Char('b'), KeyModifiers::control());
    assert_eq!(selector_key(&ctrl_b, SelectorMode::CreateNew, false), SelectorKey::StartBrowse);
    assert_eq!(selector_key(&key(KeyCode::Char('b')), SelectorMode::CreateNew, false), SelectorKey::Insert('b'));
    assert_eq!(selector_key(&key(KeyCode::Char('y')), SelectorMode::ConfirmDelete, false), SelectorKey::Confirm);
    assert_eq!(selector_key(&key(KeyCode::Char('y')), SelectorMode::List, false), SelectorKey::Ignore);
    assert_eq!(selector_key(&key(KeyCode::Esc), SelectorMode::List, true), SelectorKey::Ignore);
    assert_eq!(selector_key(&key(KeyCode::Esc), SelectorMode::List, false), SelectorKey::Escape);
    assert_eq!(selector_key(&key(KeyCode::Tab), SelectorMode::CreateNew, true), SelectorKey::Down);
    assert_eq!(selector_key(&key(KeyCode::Backspace), SelectorMode::BrowseFolders, false), SelectorKey::FolderParent);
}

#[test]
fn handle_key_reports_the_folder_to_list() {
    let mut m = two();
    m.up();
    m.handle_key(&key(KeyCode::Enter), false, false);
    for c in "/tmp".chars() {
        m.handle_key(&key(KeyCode::Char(c)), false, false);
    }
    m.handle_key(&key(KeyCode::Tab), false, false);
    let out = m.handle_key(&KeyEvent::new(KeyCode::Char('b'), KeyModifiers::control()), false, false);
    assert!(out.list_folder);
    assert_eq!(m.mode, SelectorMode::BrowseFolders);
    let out = m.handle_key(&key(KeyCode::Esc), false, false);
    assert!(!out.list_folder);
    assert_eq!(m.mode, SelectorMode::CreateNew);
    let out = m.handle_key(&key(KeyCode::Esc), false, false);
    assert_eq!(out.action, WorkspaceSelectorAction::Nothing);
    let out = m.handle_key(&key(KeyCode::Esc), false, false);
    assert_eq!(out.action, WorkspaceSelectorAction::Cancel);
    assert!(out.action.closes_modal());
}

#[test]
fn deletion_keeps_the_modal_open() {
    assert!(!WorkspaceSelectorAction::Delete(WorkspaceId(1)).closes_modal());
    assert!(WorkspaceSelectorAction::Select(WorkspaceId(1)).closes_modal());
    assert!(!WorkspaceSelectorAction::Nothing.closes_modal());
}

#[test]
fn workspace_list_gives_fresh_ids() {
    let mut list = WorkspaceList::new("home", "/home");
    assert!(list.can_add());
    let a = list.add("a", "/a");
    let b = list.add("b", "/b");
    assert_eq!(a, WorkspaceId(2));
    assert_eq!(b, WorkspaceId(3));
    assert_eq!(list.path_of(a), Some("/a".to_string()));
    let removed = list.remove(a).unwrap();
    assert_eq!(removed.name, "a");
    assert!(list.remove(a).is_none());
    assert_eq!(list.path_of(a), None);
    let c = list.add("c", "/c");
    assert_eq!(c, WorkspaceId(4));
    let ids: Vec<u64> = list.items().iter().map(|w| w.id.0).collect();
    assert_eq!(ids, vec![1, 3, 4]);
    assert_eq!(list.position(b), Some(1));
}
