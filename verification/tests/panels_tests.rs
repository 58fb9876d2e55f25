use term_ide::agents::types::{AgentStatus, AgentType};
use term_ide::agents::{Agent, AgentRegistry, AgentSpawnRequest};
use term_ide::keys::{key_to_bytes, KeyCode, KeyEvent, KeyModifiers};
use term_ide::panels::agents::{agent_row, agents_title, AgentsPanel, AgentsRequest};
use term_ide::panels::editor::buffer::Direction;
use term_ide::panels::editor::keys::EditorAction;
use term_ide::panels::editor::EditorPanel;
use term_ide::panels::file_tree::{listing_entries, DirItem, FileEntry, FileTreePanel, TreeRequest};
use term_ide::panels::input::{InputCommand, InputPanel, InputRequest};
use term_ide::panels::output::agent_viewer::AgentViewer;
use term_ide::state::context::AgentId;
use term_ide::panels::registry::PanelRegistry;
use term_ide::state::focus::PanelId;
use term_ide::state::workspace::{active_after_delete, WorkspaceId};
use term_ide::ui::layout::Rect;

fn key(code: KeyCode) -> KeyEvent {
    KeyEvent::plain(code)
}

fn ctrl(c: char) -> KeyEvent {
    KeyEvent::new(KeyCode::Char(c), KeyModifiers::control())
}

fn shift(code: KeyCode) -> KeyEvent {
    KeyEvent::new(code, KeyModifiers::shift())
}

#[test]
fn terminal_bytes_for_keys() {
    assert_eq!(key_to_bytes(KeyCode::Char('a'), KeyModifiers::none()), b"a".to_vec());
    assert_eq!(key_to_bytes(KeyCode::Char('é'), KeyModifiers::none()), "é".as_bytes().to_vec());
    assert_eq!(key_to_bytes(KeyCode::Char('a'), KeyModifiers::control()), vec![1u8]);
    assert_eq!(key_to_bytes(KeyCode::Char('C'), KeyModifiers::control()), vec![3u8]);
    assert_eq!(key_to_bytes(KeyCode::Enter, KeyModifiers::none()), vec![b'\r']);
    assert_eq!(key_to_bytes(KeyCode::Up, KeyModifiers::none()), b"\x1b[A".to_vec());
    assert_eq!(key_to_bytes(KeyCode::F(5), KeyModifiers::none()), b"\x1b[15~".to_vec());
    assert_eq!(key_to_bytes(KeyCode::F(13), KeyModifiers::none()), Vec::<u8>::new());
    assert_eq!(key_to_bytes(KeyCode::BackTab, KeyModifiers::none()), Vec::<u8>::new());
}

#[test]
fn editor_key_actions() {
    let alt = KeyModifiers::alt();
    assert_eq!(EditorAction::for_key(&KeyEvent::new(KeyCode::Char(']'), alt), false), EditorAction::NextTab);
    assert_eq!(EditorAction::for_key(&KeyEvent::new(KeyCode::Char('3'), alt), true), EditorAction::SwitchTab(3));
    assert_eq!(EditorAction::for_key(&ctrl('z'), true), EditorAction::Undo);
    assert_eq!(EditorAction::for_key(&key(KeyCode::Char('j')), false), EditorAction::Move(Direction::Down));
    assert_eq!(EditorAction::for_key(&key(KeyCode::Char('j')), true), EditorAction::TypeChar('j'));
    assert_eq!(EditorAction::for_key(&key(KeyCode::Up), false), EditorAction::ScrollUp);
    assert_eq!(EditorAction::for_key(&shift(KeyCode::Up), true), EditorAction::SelectMove(true, Direction::Up));
    assert_eq!(EditorAction::for_key(&key(KeyCode::End), false), EditorAction::GoBottom);
    assert_eq!(EditorAction::for_key(&key(KeyCode::PageUp), true), EditorAction::PageUp);
    assert_eq!(EditorAction::for_key(&ctrl('q'), true), EditorAction::Ignore);
    assert!(!EditorAction::for_key(&key(KeyCode::Esc), true).is_handled());
}

#[test]
fn editor_key_methods() {
    let mut e = EditorPanel::new();
    e.type_char('h');
    e.type_char('i');
    assert_eq!(e.active_tab().lines, vec!["hi".to_string()]);
    e.line_start(true);
    assert_eq!(e.active_tab().cursor, (0, 0));
    assert!(e.backspace_key());
    assert_eq!(e.active_tab().lines, vec!["".to_string()]);
    e.type_char('a');
    e.enter_key();
    e.type_char('b');
    assert_eq!(e.active_tab().lines, vec!["a".to_string(), "b".to_string()]);
    e.go_to_top();
    assert_eq!(e.active_tab().cursor, (0, 0));
    e.go_to_bottom();
    assert_eq!(e.active_tab().cursor, (1, 0));
    e.line_end(false);
    assert_eq!(e.active_tab().cursor, (1, 1));
    e.scroll_right();
    assert_eq!(e.active_tab().scroll.1, 1);
    e.scroll_left();
    e.scroll_left();
    assert_eq!(e.active_tab().scroll.1, 0);
    e.select_move(true, Direction::Left);
    assert!(e.active_tab().selection.is_active());
    e.escape_key();
    assert!(!e.active_tab().selection.is_active());
    assert!(!e.delete_key());
}

#[test]
fn editor_page_keys_keep_cursor_in_view() {
    let mut e = EditorPanel::new();
    e.on_resize(80, 13);
    e.active_tab_mut().lines = (0..100).map(|i| format!("l{}", i)).collect();
    e.page_down_key();
    assert_eq!(e.active_tab().scroll.0, 8);
    assert_eq!(e.active_tab().cursor.0, 8);
    e.active_tab_mut().cursor.0 = 30;
    e.page_up_key();
    assert_eq!(e.active_tab().scroll.0, 0);
    assert_eq!(e.active_tab().cursor.0, 9);
    e.set_new_file("/tmp/x.rs");
    e.switch_tab_number(1);
    assert_eq!(e.active_tab_index(), 0);
    e.switch_tab_number(9);
    assert_eq!(e.active_tab_index(), 0);
}

#[test]
fn input_command_parse() {
    assert!(matches!(InputCommand::parse("   "), InputCommand::Empty));
    assert!(matches!(InputCommand::parse(" !ls -la "), InputCommand::Shell(s) if s == "ls -la"));
    assert!(matches!(InputCommand::parse(":git status"), InputCommand::Shell(s) if s == "git status"));
    assert!(matches!(InputCommand::parse(" hello "), InputCommand::Chat(s) if s == "hello"));
}

fn type_text(p: &mut InputPanel, s: &str) {
    for c in s.chars() {
        p.handle_key(&key(KeyCode::Char(c)));
    }
}

#[test]
fn input_panel_typing_and_submit() {
    let mut p = InputPanel::new();
    type_text(&mut p, "hello");
    assert_eq!(p.text(), "hello");
    assert_eq!(p.prompt(), "> ");
    let out = p.handle_key(&key(KeyCode::Enter));
    assert!(out.handled);
    assert!(matches!(out.request, InputRequest::Submit(InputCommand::Chat(ref s)) if s == "hello"));
    assert_eq!(p.text(), "");
    type_text(&mut p, "!ls");
    assert_eq!(p.prompt(), "$ ");
    let out = p.handle_key(&key(KeyCode::Enter));
    assert!(matches!(out.request, InputRequest::Submit(InputCommand::Shell(ref s)) if s == "ls"));
    p.set_processing(true);
    type_text(&mut p, "x");
    let out = p.handle_key(&key(KeyCode::Enter));
    assert!(matches!(out.request, InputRequest::Nothing));
    assert!(p.is_processing());
}

#[test]
fn input_panel_history_round_trip() {
    let mut p = InputPanel::new();
    type_text(&mut p, "one");
    p.handle_key(&key(KeyCode::Enter));
    type_text(&mut p, "two");
    p.handle_key(&key(KeyCode::Enter));
    type_text(&mut p, "draft");
    p.handle_key(&key(KeyCode::Up));
    assert_eq!(p.text(), "two");
    p.handle_key(&key(KeyCode::Up));
    assert_eq!(p.text(), "one");
    p.handle_key(&key(KeyCode::Up));
    assert_eq!(p.text(), "one");
    p.handle_key(&key(KeyCode::Down));
    assert_eq!(p.text(), "two");
    p.handle_key(&key(KeyCode::Down));
    assert_eq!(p.text(), "draft");
    assert_eq!(p.cursor(), 5);
}

#[test]
fn input_panel_selection_editing() {
    let mut p = InputPanel::new();
    type_text(&mut p, "hello world");
    p.handle_key(&shift(KeyCode::Home));
    let out = p.handle_key(&ctrl('c'));
    assert!(matches!(out.request, InputRequest::Copy(ref t) if t == "hello world"));
    p.handle_key(&key(KeyCode::Right));
    p.handle_key(&key(KeyCode::Home));
    for _ in 0..5 {
        p.handle_key(&shift(KeyCode::Right));
    }
    let out = p.handle_key(&ctrl('x'));
    assert!(matches!(out.request, InputRequest::Copy(ref t) if t == "hello"));
    assert_eq!(p.text(), " world");
    p.handle_key(&key(KeyCode::Delete));
    assert_eq!(p.text(), "world");
    p.handle_key(&key(KeyCode::End));
    p.handle_key(&key(KeyCode::Backspace));
    assert_eq!(p.text(), "worl");
    p.paste_text("a\nb\r");
    assert_eq!(p.text(), "worla b");
    let out = p.handle_key(&ctrl('v'));
    assert!(matches!(out.request, InputRequest::Paste));
    p.handle_key(&ctrl('a'));
    assert_eq!(p.selected_text(), Some("worla b".to_string()));
    assert!(p.handle_key(&key(KeyCode::Esc)).handled);
    assert!(!p.handle_key(&key(KeyCode::Esc)).handled);
    p.handle_key(&ctrl('u'));
    assert_eq!(p.text(), "");
    p.handle_key(&shift(KeyCode::Enter));
    assert_eq!(p.text(), "\n");
    type_text(&mut p, "abc");
    p.click_at(3);
    assert_eq!(p.cursor(), 1);
    p.click_at(50);
    assert_eq!(p.cursor(), 4);
}

fn item(name: &str, is_dir: bool) -> DirItem {
    DirItem { path: format!("/r/{}", name), name: name.to_string(), is_dir }
}

#[test]
fn test_file_entry_structure() {
    let entry = FileEntry {
        path: "/test/file.rs".to_string(),
        name: "file.rs".to_string(),
        is_dir: false,
        expanded: false,
        depth: 0,
    };
    assert_eq!(entry.name, "file.rs");
    assert!(!entry.is_dir);
    assert!(!entry.expanded);
    assert_eq!(entry.depth, 0);
}

#[test]
fn listing_sorts_dirs_first_and_hides_dotfiles() {
    let items = vec![item("b.txt", false), item(".git", true), item("src", true), item("a.rs", false), item("docs", true)];
    let names: Vec<String> = listing_entries(items, 0).into_iter().map(|e| e.name).collect();
    assert_eq!(names, vec!["docs", "src", "a.rs", "b.txt"]);
}

#[test]
fn file_tree_navigation_and_expansion() {
    let mut t = FileTreePanel::new("/r");
    t.refresh_with(vec![item("main.rs", false), item("src", true), item("lib.rs", false)]);
    assert_eq!(t.root(), "/r");
    assert_eq!(t.entries().len(), 3);
    assert_eq!(t.entries()[0].name, "src");
    let out = t.handle_key(&key(KeyCode::Enter));
    assert!(matches!(out.request, TreeRequest::ListDir(ref p) if p == "/r/src"));
    t.expand_selected(vec![DirItem { path: "/r/src/x.rs".to_string(), name: "x.rs".to_string(), is_dir: false }]);
    assert_eq!(t.entries().len(), 4);
    assert_eq!(t.entries()[1].name, "x.rs");
    assert_eq!(t.entries()[1].depth, 1);
    t.handle_key(&key(KeyCode::Char('j')));
    assert_eq!(t.take_pending_open(), Some("/r/src/x.rs".to_string()));
    assert_eq!(t.take_pending_open(), None);
    t.handle_key(&key(KeyCode::Up));
    assert!(t.selected_file().is_none());
    t.handle_key(&key(KeyCode::Left));
    assert_eq!(t.entries().len(), 3);
    assert!(!t.entries()[0].expanded);
    let out = t.handle_key(&ctrl('c'));
    assert!(matches!(out.request, TreeRequest::CopyPath(ref p) if p == "/r/src"));
    assert!(matches!(t.handle_key(&ctrl('r')).request, TreeRequest::Refresh));
    t.scroll_to_bottom();
    assert_eq!(t.selected_file(), Some(&"/r/main.rs".to_string()));
    let (hit, _) = t.click_entry(1);
    assert!(hit);
    assert_eq!(t.take_pending_open(), Some("/r/lib.rs".to_string()));
    assert!(!t.click_entry(7).0);
    assert!(!t.handle_key(&key(KeyCode::Tab)).handled);
}

#[test]
fn test_format_duration_seconds() {
    assert_eq!(AgentsPanel::format_duration(0), "0s");
    assert_eq!(AgentsPanel::format_duration(30), "30s");
    assert_eq!(AgentsPanel::format_duration(59), "59s");
}

#[test]
fn test_format_duration_minutes() {
    assert_eq!(AgentsPanel::format_duration(60), "1m");
    assert_eq!(AgentsPanel::format_duration(120), "2m");
    assert_eq!(AgentsPanel::format_duration(3599), "59m");
}

#[test]
fn test_format_duration_hours() {
    assert_eq!(AgentsPanel::format_duration(3600), "1h");
    assert_eq!(AgentsPanel::format_duration(7200), "2h");
}

#[test]
fn test_spinner() {
    let chars: Vec<char> = (0..8).map(|i| AgentsPanel::spinner(i * 100)).collect();
    assert!(chars.iter().all(|c| "⠋⠙⠹⠸⠼⠴⠦⠧".contains(*c)));
}

#[test]
fn test_mini_progress_bar() {
    let bar = AgentsPanel::mini_progress_bar(0, 10);
    assert_eq!(bar, "[░░░░░░░░░░]");
    let bar = AgentsPanel::mini_progress_bar(50, 10);
    assert_eq!(bar, "[▓▓▓▓▓░░░░░]");
    let bar = AgentsPanel::mini_progress_bar(100, 10);
    assert_eq!(bar, "[▓▓▓▓▓▓▓▓▓▓]");
}

#[test]
fn test_animated_bar() {
    let bar = AgentsPanel::animated_bar(0, 10);
    assert!(bar.starts_with('['));
    assert!(bar.ends_with(']'));
    assert_eq!(bar.chars().count(), 12);
    let bar1 = AgentsPanel::animated_bar(0, 10);
    let bar2 = AgentsPanel::animated_bar(300, 10);
    assert_ne!(bar1, bar2);
}

#[test]
fn test_agents_panel_new() {
    let panel = AgentsPanel::new();
    assert_eq!(panel.selected_index(), 0);
    assert_eq!(panel.scroll_offset(), 0);
}

#[test]
fn test_agents_panel_ensure_visible() {
    let mut panel = AgentsPanel::new();
    panel.set_view(10, 0, 5);
    panel.ensure_visible();
    assert!(panel.scroll_offset() > 0);
    assert!(panel.selected_index() >= panel.scroll_offset());
    assert!(panel.selected_index() < panel.scroll_offset() + panel.visible_height());
}

#[test]
fn agents_panel_keys() {
    let mut panel = AgentsPanel::new();
    assert_eq!(panel.handle_key(&key(KeyCode::Down), 3), (true, AgentsRequest::ShowAgentAt(1)));
    assert_eq!(panel.handle_key(&key(KeyCode::Char('j')), 3), (true, AgentsRequest::ShowAgentAt(2)));
    assert_eq!(panel.handle_key(&key(KeyCode::Down), 3), (true, AgentsRequest::ShowAgentAt(2)));
    assert_eq!(panel.handle_key(&key(KeyCode::Home), 3), (true, AgentsRequest::ShowAgentAt(0)));
    assert_eq!(panel.handle_key(&key(KeyCode::End), 3), (true, AgentsRequest::ShowAgentAt(2)));
    assert_eq!(panel.handle_key(&key(KeyCode::Down), 0), (true, AgentsRequest::Nothing));
    assert_eq!(panel.handle_key(&key(KeyCode::Tab), 3).0, false);
    assert_eq!(panel.select_at_row(3, 3), AgentsRequest::ShowAgentAt(1));
    assert_eq!(panel.select_at_row(30, 3), AgentsRequest::Nothing);
    panel.on_resize(12);
    assert_eq!(panel.visible_height(), 5);
    panel.wheel_down(20);
    assert_eq!(panel.scroll_offset(), 3);
    panel.wheel_up();
    assert_eq!(panel.scroll_offset(), 0);
}

fn spawn(r: &mut AgentRegistry, t: AgentType, name: &str, parent: Option<AgentId>) -> AgentId {
    r.spawn(AgentSpawnRequest { agent_type: t, name: name.to_string(), description: String::new(), parameters: None, parent_id: parent })
}

#[test]
fn agent_viewer_shows_children_of_conductor() {
    let mut r = AgentRegistry::new();
    let c = spawn(&mut r, AgentType::Conductor, "Conductor", None);
    let s = spawn(&mut r, AgentType::Shell, "Shell", Some(c));
    r.append_output(c, "hello\nworld");
    r.append_output(s, "ok");
    r.complete(s);
    let agent: &Agent = r.get(c).unwrap();
    let kids = r.children(c);
    let mut v = AgentViewer::new();
    v.update_cache(agent, &kids);
    let lines: Vec<&str> = v.lines().iter().map(|l| l.as_str()).collect();
    assert_eq!(
        lines,
        vec!["hello", "world", "", "┌─── 🖥️ Shell (Completed) ───", "│ ok", "└───────────────────────────────"]
    );
    v.set_visible_height(2);
    v.scroll_down(10);
    assert_eq!(v.scroll_offset(), 4);
    v.scroll_up(1);
    assert_eq!(v.scroll_offset(), 3);
    v.set_scroll_offset(100);
    assert_eq!(v.scroll_offset(), 4);
    let (start, end, footer) = v.viewport(3, 6);
    assert_eq!((start, end), (4, 6));
    assert_eq!(footer, Some("──── 100% (6/6) ────".to_string()));
    v.clear();
    assert!(v.lines().is_empty());
    let shell = r.get(s).unwrap();
    let no_kids: Vec<&Agent> = Vec::new();
    v.update_cache(shell, &no_kids);
    assert_eq!(v.lines().len(), 1);
    assert!(matches!(shell.status, AgentStatus::Completed));
}

#[test]
fn file_tree_page_moves_by_rows() {
    let mut t = FileTreePanel::new("/r");
    t.refresh_with(vec![item("a", true), item("b.rs", false), item("c.rs", false), item("d.rs", false)]);
    assert_eq!(t.selected_index(), 0);
    t.page(false, 2);
    assert_eq!(t.selected_index(), 2);
    assert_eq!(t.take_pending_open(), Some("/r/c.rs".to_string()));
    t.page(false, 10);
    assert_eq!(t.selected_index(), 3);
    t.page(true, 10);
    assert_eq!(t.selected_index(), 0);
    // The directory at the top is not opened; the last file passed is.
    assert_eq!(t.take_pending_open(), Some("/r/b.rs".to_string()));
}

// The file tree reads no directory itself: the program hands it listings,
// and these tests give it the listings of the directories they describe.

fn tree_with(items: Vec<DirItem>) -> FileTreePanel {
    let mut panel = FileTreePanel::new("/tmp/t");
    panel.refresh_with(items);
    panel
}

#[test]
fn test_file_tree_new() {
    let panel = FileTreePanel::new("/tmp/t");
    assert_eq!(panel.root(), "/tmp/t");
    assert_eq!(panel.selected_index(), 0);
    assert_eq!(panel.scroll_for_view(10), 0);
    let mut panel = panel;
    assert!(panel.take_pending_open().is_none());
}

#[test]
fn test_file_tree_refresh() {
    let panel = tree_with(vec![item("test.txt", false), item("subdir", true)]);
    assert!(!panel.entries().is_empty());
    assert_eq!(panel.entries()[0].name, "subdir");
}

#[test]
fn test_file_tree_navigation() {
    let mut panel = tree_with(vec![item("a.txt", false), item("b.txt", false)]);
    assert_eq!(panel.selected_index(), 0);
    panel.move_down();
    assert_eq!(panel.selected_index(), 1);
    panel.move_up();
    assert_eq!(panel.selected_index(), 0);
}

#[test]
fn test_file_tree_navigation_boundaries() {
    let mut panel = tree_with(vec![item("only.txt", false)]);
    panel.move_up();
    assert_eq!(panel.selected_index(), 0);
    panel.move_down();
    panel.move_down();
    assert!(panel.selected_index() < panel.entries().len() || panel.entries().is_empty());
}

#[test]
fn test_file_tree_select_file() {
    let panel = tree_with(vec![item("test.txt", false)]);
    if !panel.entries().is_empty() {
        assert!(panel.selected_file().is_some());
    }
}

#[test]
fn test_file_tree_select_directory() {
    let panel = tree_with(vec![item("subdir", true)]);
    assert!(panel.entries()[panel.selected_index()].is_dir);
    assert!(panel.selected_file().is_none());
}

#[test]
fn test_take_pending_open() {
    let mut panel = tree_with(vec![item("test.txt", false)]);
    let (hit, _) = panel.click_entry(0);
    assert!(hit);
    let taken = panel.take_pending_open();
    assert!(taken.is_some());
    assert!(panel.take_pending_open().is_none());
}

#[test]
fn test_file_tree_expand_collapse() {
    let mut panel = tree_with(vec![item("subdir", true)]);
    let idx = panel.entries().iter().position(|e| e.is_dir).unwrap();
    assert_eq!(panel.selected_index(), idx);
    assert!(!panel.entries()[idx].expanded);
    let nested = DirItem { path: "/tmp/t/subdir/nested.txt".to_string(), name: "nested.txt".to_string(), is_dir: false };
    panel.expand_selected(vec![nested]);
    assert!(panel.entries()[idx].expanded);
    panel.collapse_selected();
    assert!(!panel.entries()[idx].expanded);
}

#[test]
fn test_file_tree_hidden_files_filtered() {
    let panel = tree_with(vec![item(".hidden", false), item("visible.txt", false)]);
    assert!(!panel.entries().iter().any(|e| e.name.starts_with('.')));
}

#[test]
fn test_file_tree_sorting() {
    let panel = tree_with(vec![item("z_file.txt", false), item("a_file.txt", false), item("z_dir", true), item("a_dir", true)]);
    let first_file = panel.entries().iter().position(|e| !e.is_dir).unwrap();
    let last_dir = panel.entries().iter().rposition(|e| e.is_dir).unwrap();
    assert!(last_dir < first_file);
}

#[test]
fn test_file_tree_scroll_to_bottom() {
    let mut panel = tree_with((0..10).map(|i| item(&format!("file{}.txt", i), false)).collect());
    panel.scroll_to_bottom();
    assert_eq!(panel.selected_index(), panel.entries().len().saturating_sub(1));
}

#[test]
fn agent_row_of_finished_agent() {
    let mut agent = Agent::new(AgentId::new(3), AgentType::Shell, "build".to_string(), "d".to_string(), None);
    agent.status = AgentStatus::Completed;
    agent.line_count = 12;
    let (indicator, name, stats) = agent_row(&agent, 125_400, "1.2k");
    assert_eq!(indicator, '✓');
    assert_eq!(name, "🖥️ build");
    assert_eq!(stats, "  ⏱2m ◇1.2k 12L");
}

#[test]
fn agent_row_of_running_agent() {
    let mut agent = Agent::new(AgentId::new(4), AgentType::Coder, "fix".to_string(), "d".to_string(), None);
    agent.status = AgentStatus::Running;
    let (indicator, name, stats) = agent_row(&agent, 250, "0");
    assert_eq!(indicator, '⠹');
    assert_eq!(name, "💻 fix");
    assert_eq!(stats, format!("  ⏱0s ◇0  {}", AgentsPanel::animated_bar(250, 8)));
    agent.progress = Some(50);
    let (_, _, with_progress) = agent_row(&agent, 3_600_000, "7");
    assert_eq!(with_progress, "  ⏱1h ◇7  [▓▓▓▓░░░░]");
}

#[test]
fn agent_row_of_pending_agent() {
    let agent = Agent::new(AgentId::new(5), AgentType::Search, "look".to_string(), "d".to_string(), None);
    let (indicator, _, stats) = agent_row(&agent, 42_000, "0");
    assert_eq!(indicator, '⏳');
    assert_eq!(stats, "  ⏱42s ◇0 ");
}

#[test]
fn agents_title_counts() {
    assert_eq!(agents_title(2, 5), " Agents (2/5) ");
    assert_eq!(agents_title(0, 5), " Agents (5) ");
    assert_eq!(agents_title(0, 0), " Agents (0) ");
}

#[test]
fn wheel_moves_the_panel_under_the_pointer() {
    let mut p = PanelRegistry::new("/r");
    p.file_tree.refresh_with(vec![item("a", false), item("b", false), item("c", false), item("d", false), item("e", false)]);
    p.wheel(Some(PanelId(0)), false);
    assert_eq!(p.file_tree.selected_index(), 3);
    p.wheel(Some(PanelId(0)), true);
    assert_eq!(p.file_tree.selected_index(), 0);
    p.wheel(Some(PanelId(2)), false);
    p.wheel(None, false);
    assert_eq!(p.file_tree.selected_index(), 0);
    for i in 0..25 {
        spawn(&mut p.agent_registry, AgentType::Shell, &format!("s{}", i), None);
    }
    p.wheel(Some(PanelId(3)), false);
    assert_eq!(p.agents.scroll_offset(), 3);
    p.wheel(Some(PanelId(3)), false);
    p.wheel(Some(PanelId(3)), false);
    assert_eq!(p.agents.scroll_offset(), 5);
    p.wheel(Some(PanelId(3)), true);
    assert_eq!(p.agents.scroll_offset(), 2);
}

#[test]
fn clicks_on_the_tree_pick_the_row_left_of_the_bar() {
    let inner = Rect::new(1, 1, 10, 5);
    assert_eq!(FileTreePanel::entry_under(1, 1, inner, 0), Some(0));
    assert_eq!(FileTreePanel::entry_under(5, 3, inner, 4), Some(6));
    assert_eq!(FileTreePanel::entry_under(10, 3, inner, 0), None);
    assert_eq!(FileTreePanel::entry_under(5, 6, inner, 0), None);
    assert_eq!(FileTreePanel::entry_under(0, 2, inner, 0), None);
}

#[test]
fn clicks_on_the_agents_list_pick_two_rows_each() {
    let mut a = AgentsPanel::new();
    let list = Rect::new(80, 1, 20, 10);
    assert_eq!(a.click_row(4, list, 3), AgentsRequest::ShowAgentAt(1));
    assert_eq!(a.selected_index(), 1);
    assert_eq!(a.click_row(0, list, 3), AgentsRequest::Nothing);
    assert_eq!(a.click_row(11, list, 9), AgentsRequest::Nothing);
    assert_eq!(a.click_row(9, list, 3), AgentsRequest::Nothing);
    assert_eq!(a.selected_index(), 1);
}

#[test]
fn deleting_the_working_workspace_leaves_none() {
    assert_eq!(active_after_delete(Some(WorkspaceId(2)), WorkspaceId(2), false), None);
    assert_eq!(active_after_delete(Some(WorkspaceId(2)), WorkspaceId(3), false), Some(WorkspaceId(2)));
    assert_eq!(active_after_delete(Some(WorkspaceId(2)), WorkspaceId(2), true), Some(WorkspaceId(2)));
    assert_eq!(active_after_delete(None, WorkspaceId(2), false), None);
}
