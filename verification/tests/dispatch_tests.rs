use term_ide::agents::types::AgentType;
use term_ide::dispatch::{
    count_newlines, exit_error, focus_for_context, global_key, is_source_file, model_key, settings_key,
    shell_request, cli_agent_request, truncate_cmd, Args, GlobalKey, ModelKey, OpenModal, SettingsKey,
    model_position, mouse_route, moved_model_index, MouseKind, MouseRoute,
};
use term_ide::keys::{KeyCode, KeyEvent, KeyModifiers};
use term_ide::state::app::AppState;
use term_ide::state::context::{AgentId, OutputContext};
use term_ide::state::focus::PanelId;
use term_ide::state::input_mode::InputMode;
use term_ide::ui::layout::{get_layout, Rect};
use term_ide::ui::theme::{ThemeState, ThemeVariant};

fn key(code: KeyCode) -> KeyEvent {
    KeyEvent::plain(code)
}

fn ctrl(c: char) -> KeyEvent {
    KeyEvent::new(KeyCode::Char(c), KeyModifiers::control())
}

fn state() -> AppState {
    AppState::with_cwd("/home/u/project".to_string())
}

#[test]
fn q_quits_only_outside_editing() {
    let mut s = state();
    let mut t = ThemeState::new();
    s.focus.focus(PanelId::file_tree());
    assert_eq!(s.apply_global_key(&key(KeyCode::Char('q')), &mut t), GlobalKey::Quit);
    assert!(s.should_quit);

    let mut s = state();
    s.input_mode.to_insert();
    assert_eq!(s.apply_global_key(&key(KeyCode::Char('q')), &mut t), GlobalKey::Forward);
    assert!(!s.should_quit);
}

#[test]
fn control_keys_open_modals_and_toggle_the_theme() {
    let mut s = state();
    let mut t = ThemeState::new();
    t.set_theme(ThemeVariant::Dark);
    assert_eq!(s.apply_global_key(&ctrl('m'), &mut t), GlobalKey::OpenModelSelector);
    assert_eq!(s.open_modal(), OpenModal::ModelSelector);
    assert_eq!(s.apply_global_key(&ctrl(','), &mut t), GlobalKey::OpenSettings);
    assert_eq!(s.open_modal(), OpenModal::Settings);
    assert_eq!(s.apply_global_key(&ctrl('t'), &mut t), GlobalKey::ToggleTheme);
    assert_eq!(t.current_variant(), ThemeVariant::Light);
    assert_eq!(s.status_message.as_ref().unwrap().text, "Theme: light");
    assert_eq!(s.apply_global_key(&ctrl('w'), &mut t), GlobalKey::OpenWorkspaceSelector);
}

#[test]
fn tab_and_backtab_cycle_the_focus() {
    let mut s = state();
    let mut t = ThemeState::new();
    assert_eq!(s.focus.current(), PanelId::input());
    assert_eq!(s.apply_global_key(&key(KeyCode::Tab), &mut t), GlobalKey::FocusNext);
    assert_eq!(s.focus.current(), PanelId::agents());
    assert_eq!(s.apply_global_key(&key(KeyCode::BackTab), &mut t), GlobalKey::FocusPrev);
    assert_eq!(s.focus.current(), PanelId::input());
    let shift_tab = KeyEvent::new(KeyCode::Tab, KeyModifiers::shift());
    assert_eq!(s.apply_global_key(&shift_tab, &mut t), GlobalKey::Forward);
}

#[test]
fn i_enters_insert_mode_except_on_the_input_panel() {
    let mut s = state();
    let mut t = ThemeState::new();
    s.focus.focus(PanelId::output());
    assert_eq!(s.apply_global_key(&key(KeyCode::Char('i')), &mut t), GlobalKey::ToInsert);
    assert_eq!(s.input_mode, InputMode::Insert);
    assert_eq!(s.apply_global_key(&key(KeyCode::Esc), &mut t), GlobalKey::ToNormal);
    assert_eq!(s.input_mode, InputMode::Normal);

    let mut s = state();
    assert_eq!(s.apply_global_key(&key(KeyCode::Char('i')), &mut t), GlobalKey::Forward);
    assert_eq!(s.input_mode, InputMode::Insert);
}

#[test]
fn global_key_reads_modes() {
    let m = InputMode::Modal { name: "x".to_string() };
    assert_eq!(global_key(&key(KeyCode::Tab), &m, PanelId::input()), GlobalKey::Forward);
    assert_eq!(global_key(&key(KeyCode::Tab), &InputMode::Normal, PanelId::input()), GlobalKey::FocusNext);
}

#[test]
fn modal_keys() {
    assert_eq!(settings_key(&key(KeyCode::Esc), true), SettingsKey::CancelEdit);
    assert_eq!(settings_key(&key(KeyCode::Esc), false), SettingsKey::Close);
    assert_eq!(settings_key(&key(KeyCode::Char('a')), true), SettingsKey::Insert('a'));
    assert_eq!(settings_key(&key(KeyCode::Char('a')), false), SettingsKey::Ignore);
    assert_eq!(model_key(&key(KeyCode::Enter)), ModelKey::Apply);
    assert_eq!(model_key(&key(KeyCode::Tab)), ModelKey::Ignore);
}

#[test]
fn click_focuses_the_panel_in_normal_mode() {
    let mut s = state();
    s.input_mode.to_insert();
    let layout = get_layout(Rect::new(0, 0, 100, 50));
    let p = s.click_focus(&layout, layout.file_tree.x + 1, layout.file_tree.y + 1);
    assert_eq!(p, Some(PanelId::file_tree()));
    assert_eq!(s.focus.current(), PanelId::file_tree());
    assert_eq!(s.input_mode, InputMode::Normal);
    s.input_mode.to_insert();
    let p = s.click_focus(&layout, layout.file_tree.x + 1, layout.file_tree.y + 1);
    assert_eq!(p, Some(PanelId::file_tree()));
    assert_eq!(s.input_mode, InputMode::Insert);
}

#[test]
fn context_focus() {
    let agent = OutputContext::Agent { agent_id: AgentId(3) };
    assert_eq!(focus_for_context(&agent, Some(true)), Some(PanelId::output()));
    assert_eq!(focus_for_context(&agent, Some(false)), Some(PanelId::input()));
    assert_eq!(focus_for_context(&agent, None), None);
    assert_eq!(focus_for_context(&OutputContext::Empty, None), Some(PanelId::input()));
}

#[test]
fn newlines_are_counted() {
    assert_eq!(count_newlines(b"a\nb\n\nc"), 3);
    assert_eq!(count_newlines(b""), 0);
}

#[test]
fn exit_codes() {
    assert_eq!(exit_error(0), None);
    assert_eq!(exit_error(2), Some("Exited with code 2".to_string()));
    assert_eq!(exit_error(-15), Some("Exited with code -15".to_string()));
}

#[test]
fn truncated_commands() {
    assert_eq!(truncate_cmd("ls -la", 50), "ls -la");
    assert_eq!(truncate_cmd("hello world", 8), "hello...");
    let r = shell_request("cargo build");
    assert_eq!(r.agent_type, AgentType::Shell);
    assert_eq!(r.name, "Shell");
    assert_eq!(r.description, "cargo build");
    assert_eq!(r.parameters.as_deref(), Some("cargo build"));
    assert!(r.parent_id.is_none());
    let c = cli_agent_request("gem", "Gemini", "fix it");
    assert_eq!(c.agent_type, AgentType::CliAgent { config_id: "gem".to_string() });
    assert_eq!(c.name, "Gemini");
}

#[test]
fn source_files() {
    assert!(is_source_file("/p/src/main.rs"));
    assert!(is_source_file("/p/README.MD"));
    assert!(is_source_file("/p/Dockerfile"));
    assert!(is_source_file("/p/Cargo.toml"));
    assert!(is_source_file("/p/justfile"));
    assert!(!is_source_file("/p/image.png"));
    assert!(!is_source_file("/p/LICENSE"));
}

#[test]
fn arguments() {
    let a = Args::parse_from(&vec!["-w".to_string(), "42".to_string(), "/src".to_string()]);
    assert_eq!(a.workspace.as_deref(), Some("42"));
    assert_eq!(a.path.as_deref(), Some("/src"));
    let a = Args::parse_from(&vec!["--verbose".to_string(), "x".to_string(), "--workspace".to_string()]);
    assert_eq!(a.workspace, None);
    assert_eq!(a.path.as_deref(), Some("x"));
    let a = Args::parse_from(&vec![]);
    assert!(a.path.is_none() && a.workspace.is_none());
}

#[test]
fn model_list_moves_stop_at_the_ends() {
    assert_eq!(moved_model_index(0, 3, ModelKey::Up), 0);
    assert_eq!(moved_model_index(2, 3, ModelKey::Up), 1);
    assert_eq!(moved_model_index(1, 3, ModelKey::Down), 2);
    assert_eq!(moved_model_index(2, 3, ModelKey::Down), 2);
    assert_eq!(moved_model_index(1, 3, ModelKey::Apply), 1);
}

#[test]
fn model_list_opens_at_the_current_model() {
    let models = vec![
        ("gemini".to_string(), "a".to_string()),
        ("ollama".to_string(), "b".to_string()),
        ("ollama".to_string(), "c".to_string()),
    ];
    assert_eq!(model_position(&models, "ollama", "c"), 2);
    assert_eq!(model_position(&models, "ollama", "a"), 0);
    assert_eq!(model_position(&models, "openai", "x"), 0);
}

#[test]
fn mouse_routes_follow_the_open_modal() {
    assert_eq!(mouse_route(false, OpenModal::NoModal, MouseKind::LeftDown, false), MouseRoute::SelectorClick);
    assert_eq!(mouse_route(false, OpenModal::NoModal, MouseKind::ScrollUp, true), MouseRoute::Ignore);
    assert_eq!(mouse_route(true, OpenModal::WorkspaceSelector, MouseKind::LeftDown, true), MouseRoute::SelectorClick);
    assert_eq!(mouse_route(true, OpenModal::WorkspaceSelector, MouseKind::LeftDown, false), MouseRoute::CloseModal);
    assert_eq!(mouse_route(true, OpenModal::WorkspaceSelector, MouseKind::ScrollDown, true), MouseRoute::SelectorDown);
    assert_eq!(mouse_route(true, OpenModal::WorkspaceSelector, MouseKind::ScrollUp, false), MouseRoute::Ignore);
    assert_eq!(mouse_route(true, OpenModal::Settings, MouseKind::LeftDown, false), MouseRoute::CloseModal);
    assert_eq!(mouse_route(true, OpenModal::ModelSelector, MouseKind::ScrollUp, false), MouseRoute::Ignore);
    assert_eq!(mouse_route(true, OpenModal::NoModal, MouseKind::ScrollUp, false), MouseRoute::Panels);
}
