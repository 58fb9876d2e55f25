use term_ide::panels::editor::actions::EditorOutcome;
use term_ide::panels::editor::keys::EditorAction;
use term_ide::panels::editor::buffer::{Direction, FileTab};
use term_ide::panels::editor::diff::{DiffTracker, LineChange};
use term_ide::panels::editor::selection::{Position, Selection};
use term_ide::panels::editor::undo::{EditOp, UndoStack};
use term_ide::panels::editor::{DiskFile, EditorPanel};

#[test]
fn test_simple_diff() {
    let mut tracker = DiffTracker::new();
    let original = vec!["line 1".to_string(), "line 2".to_string(), "line 3".to_string()];
    tracker.start_tracking(&original);
    let modified = vec!["line 1".to_string(), "line 2 modified".to_string(), "line 3".to_string()];
    tracker.update_diff(&modified);
    assert_eq!(tracker.get_line_change(0), LineChange::Unchanged);
    assert_eq!(tracker.get_line_change(1), LineChange::Modified);
    assert_eq!(tracker.get_line_change(2), LineChange::Unchanged);
}

#[test]
fn test_added_lines() {
    let mut tracker = DiffTracker::new();
    let original = vec!["line 1".to_string(), "line 2".to_string()];
    tracker.start_tracking(&original);
    let modified = vec!["line 1".to_string(), "new line".to_string(), "line 2".to_string()];
    tracker.update_diff(&modified);
    assert_eq!(tracker.get_line_change(1), LineChange::Added);
}

#[test]
fn diff_of_identical_text_is_unchanged() {
    let mut tracker = DiffTracker::new();
    let text = vec!["a".to_string(), "b".to_string()];
    tracker.start_tracking(&text);
    tracker.update_diff(&text);
    assert_eq!(tracker.get_line_change(0), LineChange::Unchanged);
    assert_eq!(tracker.get_line_change(1), LineChange::Unchanged);
    assert!(tracker.get_ghost_lines_after(0).is_empty());
    assert_eq!(LineChange::Added.gutter_char(), '+');
}

#[test]
fn removed_lines_become_ghosts() {
    let mut tracker = DiffTracker::new();
    let original = vec!["keep".to_string(), "gone".to_string(), "end".to_string()];
    tracker.start_tracking(&original);
    let modified = vec!["keep".to_string(), "end".to_string()];
    tracker.update_diff(&modified);
    let ghosts = tracker.get_ghost_lines_after(0);
    assert_eq!(ghosts.len(), 1);
    assert_eq!(ghosts[0].content, "gone");
    tracker.accept_changes(&modified);
    assert_eq!(tracker.get_original(), Some(modified.clone()));
    tracker.stop_tracking();
    assert!(!tracker.is_tracking());
    assert_eq!(tracker.get_original(), None);
}

#[test]
fn test_position_ordering() {
    let a = Position::new(0, 5);
    let b = Position::new(1, 2);
    let c = Position::new(0, 3);
    assert!(a < b);
    assert!(c < a);
    assert!(a > c);
}

#[test]
fn test_selection_range() {
    let mut sel = Selection::new();
    sel.start(Position::new(0, 5));
    let (start, end) = sel.range(Position::new(0, 10)).unwrap();
    assert_eq!(start.column, 5);
    assert_eq!(end.column, 10);
    let (start, end) = sel.range(Position::new(0, 2)).unwrap();
    assert_eq!(start.column, 2);
    assert_eq!(end.column, 5);
}

#[test]
fn test_get_text_single_line() {
    let lines = vec!["Hello, World!".to_string()];
    let mut sel = Selection::new();
    sel.start(Position::new(0, 0));
    let text = sel.get_text(Position::new(0, 5), &lines).unwrap();
    assert_eq!(text, "Hello");
}

#[test]
fn test_get_text_multi_line() {
    let lines = vec!["First line".to_string(), "Second line".to_string(), "Third line".to_string()];
    let mut sel = Selection::new();
    sel.start(Position::new(0, 6));
    let text = sel.get_text(Position::new(2, 5), &lines).unwrap();
    assert_eq!(text, "line\nSecond line\nThird");
}

#[test]
fn selection_contains_and_line_range() {
    let mut sel = Selection::new();
    assert!(!sel.is_active());
    sel.start(Position::new(1, 2));
    assert!(sel.is_active());
    assert!(sel.contains(Position::new(3, 0), Position::new(2, 9)));
    assert!(!sel.contains(Position::new(3, 0), Position::new(3, 0)));
    assert_eq!(sel.line_range(Position::new(3, 4), 1, 10), Some((2, 10)));
    assert_eq!(sel.line_range(Position::new(3, 4), 3, 10), Some((0, 4)));
    assert_eq!(sel.line_range(Position::new(3, 4), 5, 10), None);
    sel.clear();
    assert!(sel.range(Position::new(0, 0)).is_none());
}

#[test]
fn test_push_and_pop() {
    let mut stack = UndoStack::new();
    stack.push(EditOp::Insert { pos: Position::new(0, 0), text: "hello".to_string() });
    assert!(stack.can_undo());
    assert!(!stack.can_redo());
    let op = stack.pop_undo().unwrap();
    assert!(matches!(op, EditOp::Insert { .. }));
    assert!(!stack.can_undo());
}

#[test]
fn test_redo_cleared_on_new_edit() {
    let mut stack = UndoStack::new();
    stack.push(EditOp::Insert { pos: Position::new(0, 0), text: "a".to_string() });
    let op = stack.pop_undo().unwrap();
    stack.push_redo(op);
    assert!(stack.can_redo());
    stack.push(EditOp::Insert { pos: Position::new(0, 0), text: "b".to_string() });
    assert!(!stack.can_redo());
}

#[test]
fn undo_history_is_bounded() {
    let mut stack = UndoStack::new();
    for i in 0..150 {
        stack.push(EditOp::Insert { pos: Position::new(i, 0), text: "x".to_string() });
    }
    let mut n = 0;
    while stack.pop_undo().is_some() {
        n += 1;
    }
    assert_eq!(n, 100);
}

#[test]
fn test_editor_panel_new() {
    let editor = EditorPanel::new();
    assert!(editor.has_tabs());
    assert_eq!(editor.tab_count(), 1);
}

#[test]
fn test_editor_panel_default() {
    let editor = EditorPanel::default();
    assert!(editor.has_tabs());
}

#[test]
fn test_file_tab_new() {
    let tab = FileTab::new();
    assert!(tab.file_path.is_none());
    assert_eq!(tab.lines.len(), 1);
    assert!(tab.lines[0].is_empty());
    assert!(!tab.modified);
    assert_eq!(tab.cursor, (0, 0));
}

#[test]
fn test_file_tab_new_file() {
    let tab = FileTab::new_file("/tmp/test.rs".to_string());
    assert_eq!(tab.file_path, Some("/tmp/test.rs".to_string()));
    assert!(tab.modified);
}

#[test]
fn test_file_tab_display_name() {
    let mut tab = FileTab::new();
    assert_eq!(tab.display_name(), "[New]");
    tab.file_path = Some("/path/to/file.rs".to_string());
    assert_eq!(tab.display_name(), "file.rs");
}

#[test]
fn test_file_tab_current_line() {
    let mut tab = FileTab::new();
    tab.lines = vec!["hello".to_string(), "world".to_string()];
    tab.cursor = (0, 0);
    assert_eq!(tab.current_line(), "hello");
    tab.cursor = (1, 0);
    assert_eq!(tab.current_line(), "world");
}

#[test]
fn test_editor_open_file() {
    let mut editor = EditorPanel::new();
    editor.open("/tmp/axiom_test_editor.txt", "line 1\nline 2\n");
    assert!(editor.has_file_open("/tmp/axiom_test_editor.txt"));
    assert_eq!(editor.active_tab().lines.len(), 2);
}

#[test]
fn test_editor_open_same_file_twice() {
    let mut editor = EditorPanel::new();
    editor.open("/tmp/axiom_test_editor2.txt", "content\n");
    let first_tab_count = editor.tab_count();
    editor.open("/tmp/axiom_test_editor2.txt", "content\n");
    assert_eq!(editor.tab_count(), first_tab_count);
}

#[test]
fn test_editor_set_new_file() {
    let mut editor = EditorPanel::new();
    editor.set_new_file("/tmp/new_file.rs");
    assert!(editor.has_file_open("/tmp/new_file.rs"));
    assert!(editor.active_tab().modified);
}

#[test]
fn test_editor_tab_navigation() {
    let mut editor = EditorPanel::new();
    editor.set_new_file("/tmp/file1.rs");
    editor.set_new_file("/tmp/file2.rs");
    assert_eq!(editor.tab_count(), 2);
    editor.switch_tab(0);
    assert_eq!(editor.active_tab_index(), 0);
    editor.next_tab();
    assert_eq!(editor.active_tab_index(), 1);
    editor.next_tab();
    assert_eq!(editor.active_tab_index(), 0);
    editor.prev_tab();
    assert_eq!(editor.active_tab_index(), 1);
}

#[test]
fn test_editor_close_tab() {
    let mut editor = EditorPanel::new();
    editor.set_new_file("/tmp/file1.rs");
    editor.set_new_file("/tmp/file2.rs");
    assert_eq!(editor.tab_count(), 2);
    editor.close_tab(0);
    assert_eq!(editor.tab_count(), 1);
    editor.close_current_tab();
    assert_eq!(editor.tab_count(), 1);
}

#[test]
fn test_editor_find_tab_by_path() {
    let mut editor = EditorPanel::new();
    editor.set_new_file("/tmp/find_test1.rs");
    editor.set_new_file("/tmp/find_test2.rs");
    assert_eq!(editor.find_tab_by_path("/tmp/find_test1.rs"), Some(0));
    assert_eq!(editor.find_tab_by_path("/tmp/find_test2.rs"), Some(1));
    assert!(editor.find_tab_by_path("/nonexistent").is_none());
}

#[test]
fn test_editor_insert_char() {
    let mut editor = EditorPanel::new();
    editor.insert_char('a');
    editor.insert_char('b');
    editor.insert_char('c');
    assert_eq!(editor.active_tab().lines[0], "abc");
    assert_eq!(editor.active_tab().cursor.1, 3);
    assert!(editor.active_tab().modified);
}

#[test]
fn test_editor_backspace() {
    let mut editor = EditorPanel::new();
    editor.insert_char('a');
    editor.insert_char('b');
    editor.backspace();
    assert_eq!(editor.active_tab().lines[0], "a");
    assert_eq!(editor.active_tab().cursor.1, 1);
}

#[test]
fn test_editor_newline() {
    let mut editor = EditorPanel::new();
    editor.insert_char('a');
    editor.newline();
    editor.insert_char('b');
    assert_eq!(editor.active_tab().lines.len(), 2);
    assert_eq!(editor.active_tab().lines[0], "a");
    assert_eq!(editor.active_tab().lines[1], "b");
    assert_eq!(editor.active_tab().cursor, (1, 1));
}

#[test]
fn test_editor_delete() {
    let mut editor = EditorPanel::new();
    editor.active_tab_mut().lines = vec!["abc".to_string()];
    editor.active_tab_mut().cursor = (0, 1);
    editor.delete();
    assert_eq!(editor.active_tab().lines[0], "ac");
}

#[test]
fn test_editor_cursor_movement() {
    let mut editor = EditorPanel::new();
    editor.active_tab_mut().lines = vec!["line 1".to_string(), "line 2".to_string()];
    editor.move_cursor(Direction::Down);
    assert_eq!(editor.active_tab().cursor.0, 1);
    editor.move_cursor(Direction::Up);
    assert_eq!(editor.active_tab().cursor.0, 0);
    editor.move_cursor(Direction::Right);
    assert_eq!(editor.active_tab().cursor.1, 1);
    editor.move_cursor(Direction::Left);
    assert_eq!(editor.active_tab().cursor.1, 0);
}

#[test]
fn test_editor_scrolling() {
    let mut editor = EditorPanel::new();
    editor.on_resize(80, 13);
    assert_eq!(editor.visible_height(), 10);
    editor.active_tab_mut().lines = (0..100).map(|i| format!("line {}", i)).collect();
    editor.scroll_down(5);
    assert_eq!(editor.active_tab().scroll.0, 5);
    editor.scroll_up(3);
    assert_eq!(editor.active_tab().scroll.0, 2);
    editor.scroll_half_page_down();
    assert!(editor.active_tab().scroll.0 > 2);
    editor.scroll_to_bottom();
    assert_eq!(editor.active_tab().scroll.0, 99);
}

#[test]
fn test_editor_apply_llm_modification() {
    let mut editor = EditorPanel::new();
    editor.set_new_file("/tmp/llm_test.rs");
    let content = "fn main() {\n    println!(\"Hello\");\n}";
    editor.apply_llm_modification(content);
    assert_eq!(editor.active_tab().lines.len(), 3);
    assert!(editor.active_tab().diff_tracker.is_tracking());
    assert!(editor.active_tab().modified);
}

#[test]
fn test_editor_diff_tracking() {
    let mut editor = EditorPanel::new();
    editor.active_tab_mut().lines = vec!["original".to_string()];
    editor.start_diff_tracking();
    assert!(editor.active_tab().diff_tracker.is_tracking());
    editor.stop_diff_tracking();
    assert!(!editor.active_tab().diff_tracker.is_tracking());
}

#[test]
fn test_editor_calculate_end_position() {
    let editor = EditorPanel::new();
    let start = Position::new(0, 0);
    let end = editor.calculate_end_position(start, "hello");
    assert_eq!(end, Position::new(0, 5));
    let end = editor.calculate_end_position(start, "line1\nline2");
    assert_eq!(end.line, 1);
}

#[test]
fn test_editor_current_file() {
    let mut editor = EditorPanel::new();
    assert!(editor.current_file().is_none());
    editor.set_new_file("/tmp/current_test.rs");
    assert_eq!(editor.current_file().map(|s| s.as_str()), Some("/tmp/current_test.rs"));
}

#[test]
fn modification_to_path_opens_or_creates() {
    let mut editor = EditorPanel::new();
    editor.apply_modification_to_path("/tmp/m.rs", &DiskFile::Missing, "x\ny");
    assert!(editor.has_file_open("/tmp/m.rs"));
    assert_eq!(editor.active_tab().lines, vec!["x".to_string(), "y".to_string()]);
    editor.apply_modification_to_path("/tmp/n.rs", &DiskFile::Text("old".to_string()), "new");
    assert_eq!(editor.tab_count(), 2);
    assert_eq!(editor.active_tab().lines, vec!["new".to_string()]);
    assert!(editor.active_tab().diff_tracker.is_tracking());
}

#[test]
fn paste_then_undo_restores_text() {
    let mut editor = EditorPanel::new();
    editor.insert_char('a');
    editor.paste("xy\nz".to_string());
    assert_eq!(editor.active_tab().lines, vec!["axy".to_string(), "z".to_string()]);
    assert!(editor.undo());
    assert_eq!(editor.active_tab().lines, vec!["a".to_string()]);
    assert!(editor.redo());
    assert_eq!(editor.active_tab().lines, vec!["axy".to_string(), "z".to_string()]);
}

#[test]
fn selection_delete_and_text() {
    let mut editor = EditorPanel::new();
    editor.active_tab_mut().lines = vec!["hello world".to_string()];
    editor.handle_selection(true);
    for _ in 0..5 {
        editor.move_cursor(Direction::Right);
    }
    assert_eq!(editor.get_selected_text(), Some("hello".to_string()));
    assert_eq!(editor.delete_selection(), Some("hello".to_string()));
    assert_eq!(editor.active_tab().lines, vec![" world".to_string()]);
    assert_eq!(editor.cursor_pos(), Position::new(0, 0));
}

#[test]
fn test_editor_title() {
    let mut editor = EditorPanel::new();
    let title = editor.title("Plain Text", "");
    assert!(title.contains("[New]"));

    editor.active_tab_mut().modified = true;
    let title = editor.title("Plain Text", "");
    assert!(title.contains("*"));
    assert_eq!(title, " [New] * (Plain Text) ");
}

#[test]
fn actions_edit_and_hand_the_clipboard_to_the_caller() {
    let mut editor = EditorPanel::new();
    assert_eq!(editor.apply_action(EditorAction::TypeChar('h')), EditorOutcome::Handled);
    assert_eq!(editor.apply_action(EditorAction::TypeChar('i')), EditorOutcome::Handled);
    assert_eq!(editor.active_tab().lines[0], "hi");
    assert_eq!(editor.apply_action(EditorAction::Copy), EditorOutcome::Handled);
    assert_eq!(editor.apply_action(EditorAction::LineStart(true)), EditorOutcome::Handled);
    assert_eq!(editor.apply_action(EditorAction::Copy), EditorOutcome::CopyText("hi".to_string()));
    assert_eq!(editor.apply_action(EditorAction::Cut), EditorOutcome::CutText("hi".to_string()));
    assert_eq!(editor.active_tab().lines[0], "hi");
    assert_eq!(editor.apply_action(EditorAction::Paste), EditorOutcome::PasteClipboard);
    assert_eq!(editor.apply_action(EditorAction::Backspace), EditorOutcome::Refresh);
    assert_eq!(editor.active_tab().lines[0], "");
    assert_eq!(editor.apply_action(EditorAction::Undo), EditorOutcome::Refresh);
    assert_eq!(editor.active_tab().lines[0], "hi");
    assert_eq!(editor.apply_action(EditorAction::Redo), EditorOutcome::Refresh);
    assert_eq!(editor.active_tab().lines[0], "");
    assert_eq!(editor.apply_action(EditorAction::Redo), EditorOutcome::Handled);
}

#[test]
fn actions_move_scroll_and_pass_on_escape() {
    let mut editor = EditorPanel::new();
    editor.active_tab_mut().lines = vec!["ab".to_string(), "cd".to_string(), "ef".to_string()];
    assert_eq!(editor.apply_action(EditorAction::GoBottom), EditorOutcome::Handled);
    assert_eq!(editor.active_tab().cursor, (2, 0));
    assert_eq!(editor.apply_action(EditorAction::Move(Direction::Up)), EditorOutcome::Handled);
    assert_eq!(editor.active_tab().cursor, (1, 0));
    assert_eq!(editor.apply_action(EditorAction::LineEnd(false)), EditorOutcome::Handled);
    assert_eq!(editor.active_tab().cursor, (1, 2));
    assert_eq!(editor.apply_action(EditorAction::ScrollRight), EditorOutcome::Handled);
    assert_eq!(editor.active_tab().scroll.1, 1);
    assert_eq!(editor.apply_action(EditorAction::ScrollLeft), EditorOutcome::Handled);
    assert_eq!(editor.active_tab().scroll.1, 0);
    assert_eq!(editor.apply_action(EditorAction::GoTop), EditorOutcome::Handled);
    assert_eq!(editor.active_tab().cursor, (0, 0));
    assert_eq!(editor.apply_action(EditorAction::SelectMove(true, Direction::Right)), EditorOutcome::Handled);
    assert!(editor.active_tab().selection.is_active());
    assert_eq!(editor.apply_action(EditorAction::Escape), EditorOutcome::NotHandled);
    assert!(!editor.active_tab().selection.is_active());
    assert_eq!(editor.apply_action(EditorAction::Ignore), EditorOutcome::NotHandled);
}
