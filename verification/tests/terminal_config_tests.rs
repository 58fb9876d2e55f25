use term_ide::config::{
    expand_string, is_usable_api_key, AxiomConfig, CliAgentConfig, EnvOverrides, ProviderConfig,
};
use term_ide::files::{contains_text, get_file_icon_and_color, should_ignore, IconColor};
use term_ide::terminal::{
    panel_terminal_size, screen_text, vt100_color_to_ratatui, CellColor, TermColor, TermSize, MIN_COLS, MIN_ROWS,
};

#[test]
fn test_vt100_color_default() {
    let color = vt100_color_to_ratatui(TermColor::Default);
    assert_eq!(color, CellColor::Reset);
}

#[test]
fn test_vt100_color_basic_colors() {
    assert_eq!(vt100_color_to_ratatui(TermColor::Idx(0)), CellColor::Black);
    assert_eq!(vt100_color_to_ratatui(TermColor::Idx(1)), CellColor::Red);
    assert_eq!(vt100_color_to_ratatui(TermColor::Idx(2)), CellColor::Green);
    assert_eq!(vt100_color_to_ratatui(TermColor::Idx(3)), CellColor::Yellow);
    assert_eq!(vt100_color_to_ratatui(TermColor::Idx(4)), CellColor::Blue);
    assert_eq!(vt100_color_to_ratatui(TermColor::Idx(5)), CellColor::Magenta);
    assert_eq!(vt100_color_to_ratatui(TermColor::Idx(6)), CellColor::Cyan);
    assert_eq!(vt100_color_to_ratatui(TermColor::Idx(7)), CellColor::Gray);
}

#[test]
fn test_vt100_color_bright_colors() {
    assert_eq!(vt100_color_to_ratatui(TermColor::Idx(8)), CellColor::DarkGray);
    assert_eq!(vt100_color_to_ratatui(TermColor::Idx(9)), CellColor::LightRed);
    assert_eq!(vt100_color_to_ratatui(TermColor::Idx(10)), CellColor::LightGreen);
    assert_eq!(vt100_color_to_ratatui(TermColor::Idx(11)), CellColor::LightYellow);
    assert_eq!(vt100_color_to_ratatui(TermColor::Idx(12)), CellColor::LightBlue);
    assert_eq!(vt100_color_to_ratatui(TermColor::Idx(13)), CellColor::LightMagenta);
    assert_eq!(vt100_color_to_ratatui(TermColor::Idx(14)), CellColor::LightCyan);
    assert_eq!(vt100_color_to_ratatui(TermColor::Idx(15)), CellColor::White);
}

#[test]
fn test_vt100_color_indexed() {
    assert_eq!(vt100_color_to_ratatui(TermColor::Idx(16)), CellColor::Indexed(16));
    assert_eq!(vt100_color_to_ratatui(TermColor::Idx(100)), CellColor::Indexed(100));
    assert_eq!(vt100_color_to_ratatui(TermColor::Idx(255)), CellColor::Indexed(255));
}

#[test]
fn test_vt100_color_rgb() {
    assert_eq!(vt100_color_to_ratatui(TermColor::Rgb(255, 0, 0)), CellColor::Rgb(255, 0, 0));
    assert_eq!(vt100_color_to_ratatui(TermColor::Rgb(0, 255, 0)), CellColor::Rgb(0, 255, 0));
    assert_eq!(vt100_color_to_ratatui(TermColor::Rgb(0, 0, 255)), CellColor::Rgb(0, 0, 255));
    assert_eq!(vt100_color_to_ratatui(TermColor::Rgb(128, 128, 128)), CellColor::Rgb(128, 128, 128));
}

#[test]
fn test_pty_agent_min_size_constants() {
    let min_cols: u16 = MIN_COLS;
    let min_rows: u16 = MIN_ROWS;
    assert!(min_cols >= 10);
    assert!(min_rows >= 3);
}

#[test]
fn test_pty_size_min() {
    let mut size = TermSize::new(80, 24);
    assert!(size.resize(5, 1));
    let (cols, rows) = size.size();
    assert!(cols >= 10);
    assert!(rows >= 3);
}

#[test]
fn test_pty_resize_skip_same() {
    let mut size = TermSize::new(80, 24);
    assert!(!size.resize(80, 24));
    assert_eq!(size.size(), (80, 24));
}

#[test]
fn panel_terminal_size_keeps_one_cell() {
    assert_eq!(panel_terminal_size(82, 26), (80, 24));
    assert_eq!(panel_terminal_size(2, 0), (1, 1));
}

#[test]
fn screen_text_fills_empty_cells_and_trims_the_end() {
    let rows = vec![
        vec!["a".to_string(), String::new(), "b".to_string()],
        vec![String::new(), String::new(), String::new()],
    ];
    assert_eq!(screen_text(&rows), "a b");
    let rows = vec![vec!["x".to_string()], vec!["y".to_string()]];
    assert_eq!(screen_text(&rows), "x\ny");
}

#[test]
fn test_default_config() {
    let config = AxiomConfig::default();
    assert_eq!(config.llm.default_provider, "ollama");
    assert!(config.llm.providers.contains_key("ollama"));
}

#[test]
fn test_expand_env_var() {
    let env = vec![("TEST_VAR".to_string(), "test_value".to_string())];
    let result = expand_string("prefix_${TEST_VAR}_suffix", &env);
    assert_eq!(result, "prefix_test_value_suffix");
}

#[test]
fn test_missing_env_var() {
    let env: Vec<(String, String)> = vec![];
    let result = expand_string("${NONEXISTENT_VAR}", &env);
    assert_eq!(result, "${NONEXISTENT_VAR}");
}

#[test]
fn expansion_handles_several_references_and_unicode() {
    let env = vec![("A".to_string(), "1".to_string()), ("B".to_string(), "ß".to_string())];
    assert_eq!(expand_string("é${A}-${B}-${C}", &env), "é1-ß-${C}");
    assert_eq!(expand_string("plain text", &env), "plain text");
}

#[test]
fn env_overrides() {
    let mut config = AxiomConfig::default();
    config.apply_env_overrides(&EnvOverrides {
        anthropic_api_key: Some("a-key".to_string()),
        google_api_key: Some(String::new()),
        gemini_api_key: Some("g-key".to_string()),
        openai_api_key: None,
        ollama_base_url: Some("http://gpu:11434".to_string()),
        default_provider: Some("gemini".to_string()),
    });
    assert_eq!(config.llm.default_provider, "gemini");
    let g = config.get_provider("gemini").unwrap();
    assert!(g.enabled);
    assert_eq!(g.api_key.as_deref(), Some("g-key"));
    assert_eq!(config.get_provider("ollama").unwrap().base_url.as_deref(), Some("http://gpu:11434"));
    assert!(config.get_provider("openai").is_none());
    let c = config.get_provider("anthropic").unwrap();
    assert!(c.enabled);
    assert_eq!(c.api_key.as_deref(), Some("a-key"));
}

#[test]
fn provider_map_and_cli_agents() {
    let mut config = AxiomConfig::default();
    config.llm.providers.insert("x".to_string(), ProviderConfig::default());
    config.llm.providers.insert("x".to_string(), ProviderConfig { enabled: false, ..ProviderConfig::default() });
    assert_eq!(config.llm.providers.entries().len(), 2);
    assert!(!config.get_provider("x").unwrap().enabled);
    let agent = CliAgentConfig {
        name: "Gem".to_string(),
        command: "gem".to_string(),
        default_args: vec!["--yes".to_string()],
        use_cwd: true,
        env: vec![],
    };
    assert_eq!(agent.command_args("fix"), vec!["--yes".to_string(), "fix".to_string()]);
    assert_eq!(agent.command_args(""), vec!["--yes".to_string()]);
}

#[test]
fn api_keys() {
    assert!(is_usable_api_key(&Some("sk-1".to_string())));
    assert!(!is_usable_api_key(&Some("${KEY}".to_string())));
    assert!(!is_usable_api_key(&Some(String::new())));
    assert!(!is_usable_api_key(&None));
}

#[test]
fn test_get_file_icon_and_color_rust() {
    let (icon, _) = get_file_icon_and_color("main.rs");
    assert_eq!(icon, "🦀 ");
}

#[test]
fn test_get_file_icon_and_color_javascript() {
    let (icon, _) = get_file_icon_and_color("app.js");
    assert_eq!(icon, "📜 ");

    let (icon, _) = get_file_icon_and_color("app.ts");
    assert_eq!(icon, "📘 ");
}

#[test]
fn test_get_file_icon_and_color_python() {
    let (icon, _) = get_file_icon_and_color("script.py");
    assert_eq!(icon, "🐍 ");
}

#[test]
fn test_get_file_icon_and_color_unknown() {
    let (icon, _) = get_file_icon_and_color("file.xyz");
    assert_eq!(icon, "📄 ");
}

#[test]
fn test_get_file_icon_case_insensitive() {
    let (icon1, _) = get_file_icon_and_color("file.RS");
    let (icon2, _) = get_file_icon_and_color("file.rs");
    assert_eq!(icon1, icon2);
}

#[test]
fn icon_colors_and_names_without_a_dot() {
    assert_eq!(get_file_icon_and_color("main.rs").1, IconColor::StatusError);
    assert_eq!(get_file_icon_and_color("go").0, "🔵 ");
    assert_eq!(get_file_icon_and_color(".gitignore").1, IconColor::TextSecondary);
}

#[test]
fn watcher_ignores_hidden_built_and_temporary_files() {
    assert!(should_ignore("/p/.env"));
    assert!(should_ignore("/p/target/debug/x.rs"));
    assert!(should_ignore("/p/src/main.rs~"));
    assert!(should_ignore("/p/Cargo.lock"));
    assert!(!should_ignore("/p/src/main.rs"));
    assert!(contains_text("abcabd", "abd"));
    assert!(!contains_text("ab", "abc"));
}

#[test]
fn references_need_a_name_and_end_at_the_first_brace() {
    let env = vec![("B".to_string(), "1".to_string()), ("${A".to_string(), "2".to_string())];
    assert_eq!(expand_string("x${}y${B}", &env), "x${}y1");
    assert_eq!(expand_string("${${A}}", &env), "2}");
    assert_eq!(expand_string("$${B}", &env), "$1");
}

#[test]
fn unclosed_references_stay_and_names_may_be_any_text() {
    let env = vec![("Ü ñ".to_string(), "ok".to_string()), ("B".to_string(), "1".to_string())];
    assert_eq!(expand_string("${Ü ñ}/${B", &env), "ok/${B");
    assert_eq!(expand_string("a${\n}b", &env), "a${\n}b");
    assert_eq!(expand_string("${B}${B}", &env), "11");
}
