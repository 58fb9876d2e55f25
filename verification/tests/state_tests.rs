use term_ide::state::app::{AppState, MessageLevel};
use term_ide::state::context::{AgentId, OutputContext};
use term_ide::state::focus::{FocusState, PanelId};
use term_ide::state::input_mode::InputMode;

#[test]
fn test_output_context_file() {
    let ctx = OutputContext::File { path: "/test/file.rs".to_string() };
    assert!(ctx.is_file());
    assert!(!ctx.is_agent());
    assert!(!ctx.is_empty());
    assert_eq!(ctx.file_path(), Some(&"/test/file.rs".to_string()));
}

#[test]
fn test_output_context_agent() {
    let ctx = OutputContext::Agent { agent_id: AgentId::new(42) };
    assert!(!ctx.is_file());
    assert!(ctx.is_agent());
    assert!(!ctx.is_empty());
    assert_eq!(ctx.agent_id(), Some(AgentId::new(42)));
}

#[test]
fn test_agent_id_display() {
    let id = AgentId::new(123);
    assert_eq!(id.display_string(), "agent-123");
}

#[test]
fn test_default_focus() {
    let focus = FocusState::new();
    assert_eq!(focus.current(), PanelId::input());
}

#[test]
fn test_focus_change() {
    let mut focus = FocusState::new();
    focus.focus(PanelId::output());
    assert_eq!(focus.current(), PanelId::output());
    assert!(focus.is_focused(PanelId::output()));
    assert!(!focus.is_focused(PanelId::input()));
}

#[test]
fn test_cycle_next() {
    let mut focus = FocusState::new();
    focus.focus(PanelId::file_tree());
    focus.next();
    assert_eq!(focus.current(), PanelId::output());
    focus.next();
    assert_eq!(focus.current(), PanelId::input());
}

#[test]
fn test_back_navigation() {
    let mut focus = FocusState::new();
    focus.focus(PanelId::output());
    focus.focus(PanelId::agents());
    focus.back();
    assert_eq!(focus.current(), PanelId::output());
}

#[test]
fn focus_prev_undoes_next() {
    let mut focus = FocusState::new();
    focus.next();
    focus.prev();
    assert_eq!(focus.current(), PanelId::input());
}

#[test]
fn focus_back_without_history_keeps_focus() {
    let mut focus = FocusState::new();
    focus.back();
    assert_eq!(focus.current(), PanelId::input());
}

#[test]
fn test_default_is_normal() {
    let mode = InputMode::default();
    assert_eq!(mode, InputMode::Normal);
}

#[test]
fn test_is_editing() {
    assert!(!InputMode::Normal.is_editing());
    assert!(InputMode::Insert.is_editing());
    assert!(InputMode::Command { query: String::new() }.is_editing());
}

#[test]
fn test_transitions() {
    let mut mode = InputMode::Normal;
    mode.to_insert();
    assert_eq!(mode, InputMode::Insert);
    mode.to_normal();
    assert_eq!(mode, InputMode::Normal);
    mode.open_command();
    assert!(matches!(mode, InputMode::Command { .. }));
}

#[test]
fn input_mode_modal_by_name() {
    let mut mode = InputMode::Normal;
    mode.open_modal("settings");
    assert!(mode.is_modal());
    assert!(mode.is_modal_open("settings"));
    assert!(!mode.is_modal_open("other"));
    assert_eq!(mode.mode_name(), "MODAL");
}

fn new_state() -> AppState {
    AppState::with_cwd("/tmp/axiom".to_string())
}

#[test]
fn test_new_state() {
    let state = new_state();
    assert!(!state.should_quit);
    assert_eq!(state.input_mode, InputMode::Normal);
}

#[test]
fn test_quit() {
    let mut state = new_state();
    state.quit();
    assert!(state.should_quit);
}

#[test]
fn test_status_message() {
    let mut state = new_state();
    state.info("Hello".to_string());
    assert!(state.status_message.is_some());
    state.clear_status();
    assert!(state.status_message.is_none());
}

#[test]
fn test_status_info() {
    let mut state = new_state();
    state.info("Info message".to_string());
    let msg = state.status_message.as_ref().unwrap();
    assert_eq!(msg.text, "Info message");
    assert_eq!(msg.level, MessageLevel::Info);
}

#[test]
fn test_status_error() {
    let mut state = new_state();
    state.error("Error message".to_string());
    let msg = state.status_message.as_ref().unwrap();
    assert_eq!(msg.text, "Error message");
    assert_eq!(msg.level, MessageLevel::Error);
}

#[test]
fn test_set_status_warning() {
    let mut state = new_state();
    state.set_status("Warning message".to_string(), MessageLevel::Warning);
    let msg = state.status_message.as_ref().unwrap();
    assert_eq!(msg.text, "Warning message");
    assert_eq!(msg.level, MessageLevel::Warning);
}

#[test]
fn test_status_overwrite() {
    let mut state = new_state();
    state.info("First".to_string());
    state.info("Second".to_string());
    let msg = state.status_message.as_ref().unwrap();
    assert_eq!(msg.text, "Second");
}

#[test]
fn test_cwd_exists() {
    let state = new_state();
    assert!(!state.cwd.is_empty());
}

#[test]
fn test_message_level_equality() {
    assert_eq!(MessageLevel::Info, MessageLevel::Info);
    assert_eq!(MessageLevel::Warning, MessageLevel::Warning);
    assert_eq!(MessageLevel::Error, MessageLevel::Error);
    assert_ne!(MessageLevel::Info, MessageLevel::Error);
}

#[test]
fn test_message_level_debug() {
    let level = MessageLevel::Info;
    let debug = format!("{:?}", level);
    assert!(debug.contains("Info"));
}

#[test]
fn test_message_level_clone() {
    let level = MessageLevel::Warning;
    let cloned = level.clone();
    assert_eq!(level, cloned);
}

#[test]
fn test_app_state_focus_accessible() {
    let state = new_state();
    let _ = state.focus.current();
}

#[test]
fn test_app_state_input_mode_accessible() {
    let mut state = new_state();
    state.input_mode = InputMode::Insert;
    assert_eq!(state.input_mode, InputMode::Insert);
}

#[test]
fn workspace_name_is_directory_name() {
    let state = AppState::with_cwd("/home/user/project".to_string());
    assert_eq!(state.workspace_name(), "project");
    let root = AppState::with_cwd("/".to_string());
    assert_eq!(root.workspace_name(), "axiom");
}

#[test]
fn input_mode_name_follows_mode() {
    let mut state = new_state();
    assert_eq!(state.input_mode_name(), "NORMAL");
    state.input_mode = InputMode::Insert;
    assert_eq!(state.input_mode_name(), "INSERT");
}
