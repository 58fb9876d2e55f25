use term_ide::agents::types::AgentType;
use term_ide::agents::{AgentRegistry, AgentSpawnRequest};
use term_ide::dispatch::MouseKind;
use term_ide::keys::{KeyCode, KeyEvent, KeyModifiers};
use term_ide::llm::message::{MessageContent, Role as LlmRole};
use term_ide::panels::chat::{ChatPanel, Role};
use term_ide::panels::output::file_viewer::FileViewer;
use term_ide::panels::output::panel::{OutputKeyOutcome, OutputPanel};
use term_ide::state::context::{AgentId, OutputContext};

fn key(code: KeyCode) -> KeyEvent {
    KeyEvent::plain(code)
}

fn typed(p: &mut ChatPanel, s: &str) {
    for c in s.chars() {
        p.handle_key(&key(KeyCode::Char(c)));
    }
}

#[test]
fn chat_starts_with_the_welcome() {
    let p = ChatPanel::new();
    assert_eq!(p.messages().len(), 1);
    assert_eq!(p.messages()[0].role, Role::System);
    assert_eq!(p.input(), "");
    assert_eq!(p.current_model(), "gemma3:4b");
}

#[test]
fn sending_hands_over_the_conversation() {
    let mut p = ChatPanel::new();
    typed(&mut p, "hi");
    let out = p.handle_key(&key(KeyCode::Enter));
    let req = out.request.expect("sent");
    assert_eq!(req.len(), 1);
    assert_eq!(req[0].role, LlmRole::User);
    assert!(matches!(&req[0].content, MessageContent::Text(t) if t == "hi"));
    assert!(p.is_generating());
    assert_eq!(p.input(), "");
    typed(&mut p, "again");
    assert!(p.handle_key(&key(KeyCode::Enter)).request.is_none());
    p.append_chunk("Hel");
    p.append_chunk("lo");
    p.complete_response();
    assert!(!p.is_generating());
    assert_eq!(p.messages().last().unwrap().content, "Hello");
    let req = p.send_message().expect("sent");
    assert_eq!(req.len(), 3);
    assert_eq!(req[1].role, LlmRole::Assistant);
}

#[test]
fn blank_input_is_not_sent() {
    let mut p = ChatPanel::new();
    typed(&mut p, "   ");
    assert!(p.send_message().is_none());
    assert_eq!(p.input(), "   ");
}

#[test]
fn errors_become_system_messages() {
    let mut p = ChatPanel::new();
    typed(&mut p, "q");
    p.send_message();
    p.push_error("timeout");
    assert!(!p.is_generating());
    assert_eq!(p.messages().last().unwrap().content, "Error: timeout");
}

#[test]
fn shift_enter_types_a_newline_and_arrows_move_by_line() {
    let mut p = ChatPanel::new();
    typed(&mut p, "abcd");
    p.handle_key(&KeyEvent::new(KeyCode::Enter, KeyModifiers::shift()));
    typed(&mut p, "ef");
    assert_eq!(p.input(), "abcd\nef");
    assert_eq!(p.cursor(), 7);
    p.handle_key(&key(KeyCode::Up));
    assert_eq!(p.cursor(), 2);
    p.handle_key(&key(KeyCode::End));
    assert_eq!(p.cursor(), 4);
    p.handle_key(&key(KeyCode::Down));
    assert_eq!(p.cursor(), 7);
    p.handle_key(&key(KeyCode::Home));
    assert_eq!(p.cursor(), 5);
    p.handle_key(&key(KeyCode::Left));
    assert_eq!(p.cursor(), 4);
}

#[test]
fn left_right_and_backspace_step_over_whole_characters() {
    let mut p = ChatPanel::new();
    typed(&mut p, "aé");
    assert_eq!(p.cursor(), 3);
    p.handle_key(&key(KeyCode::Left));
    assert_eq!(p.cursor(), 1);
    p.handle_key(&key(KeyCode::Right));
    assert_eq!(p.cursor(), 3);
    p.handle_key(&key(KeyCode::Backspace));
    assert_eq!(p.input(), "a");
    assert_eq!(p.cursor(), 1);
}

#[test]
fn control_characters_are_not_typed() {
    let mut p = ChatPanel::new();
    let out = p.handle_key(&KeyEvent::new(KeyCode::Char('c'), KeyModifiers::control()));
    assert!(!out.handled);
    assert_eq!(p.input(), "");
    assert!(!p.handle_key(&key(KeyCode::F(1))).handled);
}

#[test]
fn input_height_grows_with_the_text() {
    let mut p = ChatPanel::new();
    assert_eq!(p.input_height(40), 3);
    typed(&mut p, "a");
    p.handle_key(&KeyEvent::new(KeyCode::Enter, KeyModifiers::alt()));
    typed(&mut p, "b");
    assert_eq!(p.input_height(40), 4);
    assert_eq!(p.input_height(0), 3);
    for _ in 0..20 {
        p.handle_key(&KeyEvent::new(KeyCode::Enter, KeyModifiers::alt()));
    }
    assert_eq!(p.input_height(40), 10);
}

#[test]
fn file_viewer_loads_and_scrolls() {
    let mut f = FileViewer::new();
    assert!(f.needs_load("/a.rs"));
    let text: String = (0..30).map(|i| format!("line {}\n", i)).collect();
    f.load_file("/a.rs", Ok(text));
    assert_eq!(f.line_count(), 30);
    assert!(!f.needs_load("/a.rs"));
    f.scroll_down(100);
    assert_eq!(f.scroll_offset(), 10);
    f.scroll_up(3);
    assert_eq!(f.scroll_offset(), 7);
    f.load_file("/b.rs", Err("denied".to_string()));
    assert_eq!(f.lines()[0], "Error reading file: denied");
    assert_eq!(f.scroll_offset(), 0);
    f.load_file("/c.rs", Ok(String::new()));
    assert_eq!(f.line_count(), 1);
    assert_eq!(f.reload(), Some("/c.rs".to_string()));
    assert!(f.needs_load("/c.rs"));
}

fn registry_with(t: AgentType) -> (AgentRegistry, AgentId) {
    let mut r = AgentRegistry::new();
    let id = r.spawn(AgentSpawnRequest {
        agent_type: t,
        name: "helper".to_string(),
        description: "d".to_string(),
        parameters: None,
        parent_id: None,
    });
    (r, id)
}

#[test]
fn returning_to_a_file_restores_its_scroll() {
    let reg = AgentRegistry::new();
    let mut p = OutputPanel::new();
    let text: String = (0..50).map(|i| format!("{}\n", i)).collect();
    p.set_context(OutputContext::File { path: "/x.txt".to_string() }, Some(Ok(text)));
    p.scroll_down(12);
    assert_eq!(p.file_viewer().scroll_offset(), 12);
    p.set_context(OutputContext::Empty, None);
    p.set_context(OutputContext::File { path: "/x.txt".to_string() }, None);
    assert_eq!(p.file_viewer().scroll_offset(), 12);
    assert_eq!(p.title(&reg), " Output: x.txt ");
}

#[test]
fn keys_scroll_or_go_to_a_cli_agent() {
    let (reg, id) = registry_with(AgentType::CliAgent { config_id: "gem".to_string() });
    let mut p = OutputPanel::new();
    p.set_context(OutputContext::Agent { agent_id: id }, None);
    assert_eq!(p.current_cli_agent_id(&reg), Some(id));
    match p.handle_key(&key(KeyCode::Up), &reg) {
        OutputKeyOutcome::CliInput { id: i, data } => {
            assert_eq!(i, id);
            assert_eq!(data, b"\x1b[A".to_vec());
        }
        other => panic!("unexpected {:?}", other),
    }
    assert!(matches!(p.handle_key(&key(KeyCode::Other), &reg), OutputKeyOutcome::Unhandled));

    let (reg2, id2) = registry_with(AgentType::Shell);
    let mut q = OutputPanel::new();
    q.set_context(OutputContext::Agent { agent_id: id2 }, None);
    assert_eq!(q.current_cli_agent_id(&reg2), None);
    assert!(matches!(q.handle_key(&key(KeyCode::PageDown), &reg2), OutputKeyOutcome::Handled));
    assert!(matches!(q.handle_key(&key(KeyCode::Char('x')), &reg2), OutputKeyOutcome::Unhandled));
    assert!(q.handle_mouse(MouseKind::ScrollUp));
    assert!(!q.handle_mouse(MouseKind::Other));
    assert_eq!(q.title(&reg2), " 🖥️ helper ");
    q.set_context(OutputContext::Agent { agent_id: AgentId(77) }, None);
    assert_eq!(q.title(&reg2), " Agent agent-77 ");
}

#[test]
fn resize_sets_the_terminal_size() {
    let mut p = OutputPanel::new();
    assert_eq!(p.pty_size(), (78, 22));
    assert_eq!(p.on_resize(100, 30), (98, 28));
    assert_eq!(p.on_resize(1, 1), (0, 0));
}

#[test]
fn file_viewer_rows_number_lines_to_the_widest() {
    let mut f = FileViewer::new();
    let text: String = (1..=12).map(|i| format!("l{}\n", i)).collect();
    f.load_file("/t.txt", Ok(text));
    f.set_visible_height(1);
    f.set_scroll_offset(8);
    assert_eq!(f.scroll_offset(), 8);
    let rows = f.rows(5);
    assert_eq!(rows.len(), 4);
    assert_eq!(rows[0], (" 9 ".to_string(), "l9".to_string()));
    assert_eq!(rows[3], ("12 ".to_string(), "l12".to_string()));
}
