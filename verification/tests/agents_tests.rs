use term_ide::agents::conductor::{
    build_system_prompt, can_truncate, parse_agent_requests, truncate, try_parse_agent_requests,
    user_echo, conductor_messages, error_chunk, Conductor, ConductorStep, ReplyCollector,
};
use term_ide::agents::types::{AgentStatus, AgentType};
use term_ide::agents::{agent_run, Agent, AgentRegistry, AgentRun, AgentSpawnRequest};
use term_ide::llm::message::{ChatMessage, Role};
use term_ide::state::context::AgentId;

fn request(agent_type: AgentType, name: &str, parent_id: Option<AgentId>) -> AgentSpawnRequest {
    AgentSpawnRequest {
        agent_type,
        name: name.to_string(),
        description: "".to_string(),
        parameters: None,
        parent_id,
    }
}

#[test]
fn test_spawn_agent() {
    let mut registry = AgentRegistry::new();
    let request = AgentSpawnRequest {
        agent_type: AgentType::Shell,
        name: "Test Shell".to_string(),
        description: "Running ls".to_string(),
        parameters: None,
        parent_id: None,
    };
    let id = registry.spawn(request);
    assert_eq!(id.value(), 1);
    let agent = registry.get(id).unwrap();
    assert_eq!(agent.name, "Test Shell");
    assert!(matches!(agent.status, AgentStatus::Pending));
}

#[test]
fn test_agent_lifecycle() {
    let mut registry = AgentRegistry::new();
    let id = registry.spawn(AgentSpawnRequest {
        agent_type: AgentType::Coder,
        name: "Coder".to_string(),
        description: "Writing code".to_string(),
        parameters: None,
        parent_id: None,
    });
    registry.start(id);
    assert!(registry.get(id).unwrap().status.is_running());
    registry.append_output(id, "Hello ");
    registry.append_output(id, "World");
    assert_eq!(registry.get(id).unwrap().output, "Hello World");
    registry.complete(id);
    assert!(registry.get(id).unwrap().status.is_terminal());
}

#[test]
fn test_selection() {
    let mut registry = AgentRegistry::new();
    let id1 = registry.spawn(request(AgentType::Shell, "First", None));
    assert_eq!(registry.selected_id(), Some(id1));
    let id2 = registry.spawn(request(AgentType::Shell, "Second", None));
    assert_eq!(registry.selected_id(), Some(id1));
    registry.select(id2);
    assert_eq!(registry.selected_id(), Some(id2));
}

#[test]
fn spawned_ids_increase_and_newest_comes_first() {
    let mut registry = AgentRegistry::new();
    let a = registry.spawn(request(AgentType::Shell, "a", None));
    let b = registry.spawn(request(AgentType::Search, "b", None));
    let c = registry.spawn(request(AgentType::Coder, "c", None));
    assert_eq!((a.value(), b.value(), c.value()), (1, 2, 3));
    let names: Vec<&str> = registry.agents().iter().map(|x| x.name.as_str()).collect();
    assert_eq!(names, vec!["c", "b", "a"]);
    assert_eq!(registry.len(), 3);
    assert!(!registry.is_empty());
}

#[test]
fn select_unknown_agent_keeps_selection() {
    let mut registry = AgentRegistry::new();
    let a = registry.spawn(request(AgentType::Shell, "a", None));
    registry.select(AgentId::new(99));
    assert_eq!(registry.selected_id(), Some(a));
    assert!(registry.get(AgentId::new(99)).is_none());
    registry.clear_selection();
    assert!(registry.selected().is_none());
}

#[test]
fn append_output_counts_tokens_and_lines() {
    let mut registry = AgentRegistry::new();
    let id = registry.spawn(request(AgentType::Shell, "s", None));
    registry.append_output(id, "one\ntwo\n");
    registry.append_output(id, "three four");
    let agent = registry.get(id).unwrap();
    assert_eq!(agent.output, "one\ntwo\nthree four");
    assert_eq!(agent.token_count, 18 / 4);
    assert_eq!(agent.line_count, 3);
}

#[test]
fn running_count_counts_running_agents() {
    let mut registry = AgentRegistry::new();
    let a = registry.spawn(request(AgentType::Shell, "a", None));
    let b = registry.spawn(request(AgentType::Shell, "b", None));
    let _c = registry.spawn(request(AgentType::Shell, "c", None));
    registry.start(a);
    registry.start(b);
    assert_eq!(registry.running_count(), 2);
    registry.cancel(a);
    assert_eq!(registry.running_count(), 1);
    assert!(matches!(registry.get(a).unwrap().status, AgentStatus::Cancelled));
    assert!(registry.get(a).unwrap().completed_at.is_some());
    assert!(registry.get(a).unwrap().run_duration().is_some());
    assert!(registry.get(b).unwrap().run_duration().is_none());
}

#[test]
fn error_records_message() {
    let mut registry = AgentRegistry::new();
    let a = registry.spawn(request(AgentType::Shell, "a", None));
    registry.error(a, "boom".to_string());
    assert_eq!(registry.get(a).unwrap().status, AgentStatus::Error("boom".to_string()));
}

#[test]
fn children_and_remove_children() {
    let mut registry = AgentRegistry::new();
    let parent = registry.spawn(request(AgentType::Conductor, "parent", None));
    let c1 = registry.spawn(request(AgentType::Shell, "c1", Some(parent)));
    let _other = registry.spawn(request(AgentType::Shell, "other", None));
    let c2 = registry.spawn(request(AgentType::Search, "c2", Some(parent)));
    let kids: Vec<&str> = registry.children(parent).iter().map(|a| a.name.as_str()).collect();
    assert_eq!(kids, vec!["c2", "c1"]);
    registry.select(c1);
    registry.remove_children(parent);
    assert!(registry.get(c1).is_none());
    assert!(registry.get(c2).is_none());
    assert_eq!(registry.len(), 2);
    assert_eq!(registry.selected_id(), Some(parent));
}

#[test]
fn clear_empties_registry_but_ids_keep_counting() {
    let mut registry = AgentRegistry::new();
    registry.spawn(request(AgentType::Shell, "a", None));
    registry.clear();
    assert!(registry.is_empty());
    assert!(registry.selected_id().is_none());
    let b = registry.spawn(request(AgentType::Shell, "b", None));
    assert_eq!(b.value(), 2);
}

#[test]
fn cleanup_old_keeps_unfinished_and_recent_agents() {
    let mut registry = AgentRegistry::new();
    let a = registry.spawn(request(AgentType::Shell, "a", None));
    let b = registry.spawn(request(AgentType::Shell, "b", None));
    registry.complete(a);
    registry.cleanup_old(std::time::Duration::from_secs(3600));
    assert_eq!(registry.len(), 2);
    registry.cleanup_old(std::time::Duration::from_secs(0));
    assert!(registry.get(a).is_none());
    assert!(registry.get(b).is_some());
    assert_eq!(registry.selected_id(), Some(b));
}

#[test]
fn retain_unexpired_drops_only_old_finished_agents() {
    let mut registry = AgentRegistry::new();
    let a = registry.spawn(request(AgentType::Shell, "a", None));
    let b = registry.spawn(request(AgentType::Shell, "b", None));
    let c = registry.spawn(request(AgentType::Shell, "c", None));
    registry.complete(a);
    registry.complete(b);
    // display order: c (running or pending), b, a; the selection is a
    registry.retain_unexpired(&vec![Some(1000), Some(100), Some(101)], 100);
    assert_eq!(registry.len(), 2);
    assert!(registry.get(c).is_some());
    assert!(registry.get(b).is_some());
    assert!(registry.get(a).is_none());
    assert_eq!(registry.selected_id(), Some(c));
    registry.retain_unexpired(&vec![None, None], 0);
    assert_eq!(registry.len(), 2);
    assert_eq!(registry.selected_id(), Some(c));
}

#[test]
fn retain_masked_moves_selection_to_first_left() {
    let mut registry = AgentRegistry::new();
    let a = registry.spawn(request(AgentType::Shell, "a", None));
    let b = registry.spawn(request(AgentType::Shell, "b", None));
    let c = registry.spawn(request(AgentType::Shell, "c", None));
    // display order: c, b, a; the selection is a
    registry.retain_masked(&vec![false, true, false]);
    assert_eq!(registry.len(), 1);
    assert!(registry.get(b).is_some());
    assert!(registry.get(c).is_none());
    assert_eq!(registry.selected_id(), Some(b));
    let _ = a;
}

#[test]
fn agent_set_progress_is_capped() {
    let mut agent = Agent::new(AgentId::new(7), AgentType::Shell, "n".to_string(), "d".to_string(), None);
    agent.set_progress(42);
    assert_eq!(agent.progress, Some(42));
    agent.set_progress(250);
    assert_eq!(agent.progress, Some(100));
    assert!(agent.run_duration().is_none());
    let _ = agent.elapsed();
}

#[test]
fn test_agent_status_terminal() {
    assert!(!AgentStatus::Pending.is_terminal());
    assert!(!AgentStatus::Running.is_terminal());
    assert!(AgentStatus::Completed.is_terminal());
    assert!(AgentStatus::Error("test".to_string()).is_terminal());
    assert!(AgentStatus::Cancelled.is_terminal());
}

#[test]
fn test_agent_status_is_running() {
    assert!(!AgentStatus::Pending.is_running());
    assert!(AgentStatus::Running.is_running());
    assert!(!AgentStatus::Completed.is_running());
    assert!(!AgentStatus::Error("err".to_string()).is_running());
    assert!(!AgentStatus::Cancelled.is_running());
    assert!(!AgentStatus::Idle.is_running());
}

#[test]
fn test_agent_status_indicator() {
    assert_eq!(AgentStatus::Pending.indicator(), "⏳");
    assert_eq!(AgentStatus::Running.indicator(), "⚡");
    assert_eq!(AgentStatus::Completed.indicator(), "✓");
    assert_eq!(AgentStatus::Error("err".to_string()).indicator(), "✗");
    assert_eq!(AgentStatus::Cancelled.indicator(), "⊘");
    assert_eq!(AgentStatus::Idle.indicator(), "💤");
}

#[test]
fn test_agent_status_display() {
    assert_eq!(AgentStatus::Pending.display_string(), "Pending");
    assert_eq!(AgentStatus::Running.display_string(), "Running");
    assert_eq!(AgentStatus::Completed.display_string(), "Completed");
    assert_eq!(AgentStatus::Error("oops".to_string()).display_string(), "Error: oops");
    assert_eq!(AgentStatus::Cancelled.display_string(), "Cancelled");
    assert_eq!(AgentStatus::Idle.display_string(), "Idle");
}

#[test]
fn test_agent_status_equality() {
    assert_eq!(AgentStatus::Pending, AgentStatus::Pending);
    assert_ne!(AgentStatus::Pending, AgentStatus::Running);
    assert_eq!(AgentStatus::Error("a".to_string()), AgentStatus::Error("a".to_string()));
    assert_ne!(AgentStatus::Error("a".to_string()), AgentStatus::Error("b".to_string()));
}

#[test]
fn test_agent_type_label() {
    assert_eq!(AgentType::Shell.label(), "Shell");
    assert_eq!(AgentType::Custom("MyTool".to_string()).label(), "MyTool");
    assert_eq!(AgentType::Conductor.label(), "Conductor");
    assert_eq!(AgentType::Coder.label(), "Coder");
    assert_eq!(AgentType::FileOps.label(), "FileOps");
    assert_eq!(AgentType::Search.label(), "Search");
    assert_eq!(AgentType::CliAgent { config_id: "anthropic".to_string() }.label(), "anthropic");
}

#[test]
fn test_agent_type_icon() {
    assert_eq!(AgentType::Conductor.icon(), "🎯");
    assert_eq!(AgentType::Coder.icon(), "💻");
    assert_eq!(AgentType::Shell.icon(), "🖥️");
    assert_eq!(AgentType::FileOps.icon(), "📁");
    assert_eq!(AgentType::Search.icon(), "🔍");
    assert_eq!(AgentType::Custom("any".to_string()).icon(), "🔧");
    assert_eq!(AgentType::CliAgent { config_id: "test".to_string() }.icon(), "🤖");
}

#[test]
fn test_agent_type_is_cli_agent() {
    assert!(!AgentType::Conductor.is_cli_agent());
    assert!(!AgentType::Shell.is_cli_agent());
    assert!(!AgentType::Coder.is_cli_agent());
    assert!(!AgentType::Search.is_cli_agent());
    assert!(!AgentType::FileOps.is_cli_agent());
    assert!(!AgentType::Custom("test".to_string()).is_cli_agent());
    assert!(AgentType::CliAgent { config_id: "anthropic".to_string() }.is_cli_agent());
}

#[test]
fn test_agent_type_cli_config_id() {
    assert!(AgentType::Shell.cli_agent_config_id().is_none());
    assert!(AgentType::Conductor.cli_agent_config_id().is_none());
    let cli = AgentType::CliAgent { config_id: "gemini".to_string() };
    assert_eq!(cli.cli_agent_config_id(), Some("gemini"));
}

#[test]
fn test_agent_type_display() {
    assert_eq!(AgentType::Shell.display_string(), "Shell");
    assert_eq!(AgentType::Custom("MyAgent".to_string()).display_string(), "MyAgent");
    assert_eq!(AgentType::CliAgent { config_id: "anthropic".to_string() }.display_string(), "anthropic");
}

#[test]
fn test_agent_type_equality() {
    assert_eq!(AgentType::Shell, AgentType::Shell);
    assert_ne!(AgentType::Shell, AgentType::Coder);
    assert_eq!(AgentType::Custom("a".to_string()), AgentType::Custom("a".to_string()));
    assert_ne!(AgentType::Custom("a".to_string()), AgentType::Custom("b".to_string()));
    assert_eq!(
        AgentType::CliAgent { config_id: "x".to_string() },
        AgentType::CliAgent { config_id: "x".to_string() }
    );
}

#[test]
fn test_agent_type_clone() {
    let original = AgentType::Custom("test".to_string());
    let cloned = original.clone();
    assert_eq!(original, cloned);
    let cli = AgentType::CliAgent { config_id: "anthropic".to_string() };
    let cli_cloned = cli.clone();
    assert_eq!(cli, cli_cloned);
}

#[test]
fn test_truncate() {
    assert_eq!(truncate("hello", 10), "hello");
    assert_eq!(truncate("hello world", 8), "hello...");
}

#[test]
fn truncate_cut_inside_character_is_detected() {
    assert!(can_truncate("hello", 3));
    assert!(!can_truncate("héllo wörld", 5));
    assert!(can_truncate("héllo wörld", 6));
    assert_eq!(truncate("héllo wörld", 6), "hé...");
}

#[test]
fn test_parse_shell_command() {
    let parent_id = AgentId::new(1);
    let reqs = parse_agent_requests("@shell ls -la", parent_id);
    assert_eq!(reqs.len(), 1);
    let req = &reqs[0];
    assert_eq!(req.agent_type, AgentType::Shell);
    assert_eq!(req.parameters, Some("ls -la".to_string()));
    assert_eq!(req.parent_id, Some(parent_id));
}

#[test]
fn test_parse_multiple_agents() {
    let response = "Let me help you with that.\n\n@shell git status\n@search TODO comments";
    let parent_id = AgentId::new(1);
    let reqs = parse_agent_requests(response, parent_id);
    assert_eq!(reqs.len(), 2);
}

#[test]
fn parse_search_and_fileops_descriptions() {
    let reqs = parse_agent_requests("  @search TODO  \n@fileops read src/main.rs", AgentId::new(3));
    assert_eq!(reqs.len(), 2);
    assert_eq!(reqs[0].agent_type, AgentType::Search);
    assert_eq!(reqs[0].name, "Search");
    assert_eq!(reqs[0].description, "Searching: TODO");
    assert_eq!(reqs[0].parameters, Some("TODO".to_string()));
    assert_eq!(reqs[1].agent_type, AgentType::FileOps);
    assert_eq!(reqs[1].description, "read src/main.rs");
}

#[test]
fn parse_coder_with_code_block() {
    let response = "@coder Update the main function\n```rust:src/main.rs\nfn main() {\n    println!(\"Hello!\");\n}\n```\n@shell cargo build";
    let reqs = parse_agent_requests(response, AgentId::new(1));
    assert_eq!(reqs.len(), 2);
    assert_eq!(reqs[0].agent_type, AgentType::Coder);
    assert_eq!(reqs[0].description, "Update the main function");
    assert_eq!(
        reqs[0].parameters,
        Some("src/main.rs|fn main() {\n    println!(\"Hello!\");\n}\n".to_string())
    );
    assert_eq!(reqs[1].agent_type, AgentType::Shell);
    assert_eq!(reqs[1].parameters, Some("cargo build".to_string()));
}

#[test]
fn parse_coder_without_block_uses_description() {
    let response = "@coder refactor things\nsome words\n@search x";
    let reqs = parse_agent_requests(response, AgentId::new(1));
    assert_eq!(reqs.len(), 2);
    assert_eq!(reqs[0].parameters, Some("refactor things".to_string()));
    assert_eq!(reqs[1].agent_type, AgentType::Search);
}

#[test]
fn parse_coder_header_with_slash() {
    let response = "@coder add file\n```src/lib.rs\nx\n```";
    let reqs = parse_agent_requests(response, AgentId::new(1));
    assert_eq!(reqs[0].parameters, Some("src/lib.rs|x\n".to_string()));
}

#[test]
fn parse_long_command_truncates_description() {
    let cmd = "a".repeat(60);
    let reqs = parse_agent_requests(&format!("@shell {}", cmd), AgentId::new(1));
    assert_eq!(reqs[0].description, format!("{}...", "a".repeat(47)));
    assert_eq!(reqs[0].parameters, Some(cmd));
}

#[test]
fn try_parse_refuses_cut_inside_character() {
    let cmd = format!("{}é{}", "a".repeat(46), "b".repeat(10));
    let response = format!("@shell {}", cmd);
    assert!(try_parse_agent_requests(&response, AgentId::new(1)).is_none());
    assert!(try_parse_agent_requests("@shell ls", AgentId::new(1)).is_some());
}

#[test]
fn conductor_process_spawns_then_wakes() {
    let mut c = Conductor::new();
    match c.process("hi".to_string()) {
        ConductorStep::Spawn(r) => {
            assert_eq!(r.agent_type, AgentType::Conductor);
            assert_eq!(r.name, "Conductor");
            assert_eq!(r.description, "AI Assistant");
            assert_eq!(r.parameters, Some("hi".to_string()));
            assert!(r.parent_id.is_none());
        }
        _ => panic!("expected a spawn"),
    }
    c.set_agent_id(AgentId::new(5));
    assert_eq!(c.agent_id(), Some(AgentId::new(5)));
    assert!(matches!(c.process("again".to_string()), ConductorStep::Wake(id) if id == AgentId::new(5)));
    assert_eq!(c.history().len(), 2);
}

#[test]
fn conductor_history_keeps_last_twenty() {
    let mut c = Conductor::new();
    for i in 0..15 {
        c.process(format!("q{}", i));
        c.add_response(format!("a{}", i));
    }
    assert_eq!(c.history().len(), 20);
    assert_eq!(c.history()[19].text(), "a14");
    assert_eq!(c.history()[0].text(), "q5");
    c.clear_history();
    assert!(c.history().is_empty());
}

#[test]
fn conductor_messages_start_with_system_prompt() {
    let history = vec![ChatMessage::user("hello")];
    let msgs = conductor_messages(history);
    assert_eq!(msgs.len(), 2);
    assert_eq!(msgs[0].role, Role::System);
    assert_eq!(msgs[0].text(), build_system_prompt());
    assert!(build_system_prompt().contains("@shell <command>"));
    assert_eq!(msgs[1].text(), "hello");
}

#[test]
fn reply_collector_gathers_chunks_and_requests() {
    let mut r = ReplyCollector::new();
    r.on_chunk("Sure.\n@shell ");
    r.on_chunk("ls");
    assert_eq!(r.text(), "Sure.\n@shell ls");
    let reqs = r.requests(AgentId::new(9)).unwrap();
    assert_eq!(reqs.len(), 1);
    assert_eq!(reqs[0].parent_id, Some(AgentId::new(9)));
    assert_eq!(user_echo("why?"), ">>>user\nwhy?\n<<<\n\n");
    assert_eq!(error_chunk("down"), "\nError: down");
}

#[test]
fn get_mut_changes_the_agent_in_place() {
    let mut registry = AgentRegistry::new();
    let a = registry.spawn(request(AgentType::Shell, "a", None));
    let b = registry.spawn(request(AgentType::Shell, "b", None));
    if let Some(agent) = registry.get_mut(a) {
        agent.set_progress(40);
    }
    assert_eq!(registry.get(a).unwrap().progress, Some(40));
    assert_eq!(registry.get(b).unwrap().progress, None);
    assert!(registry.get_mut(AgentId::new(99)).is_none());
    assert_eq!(registry.agents()[1].id, a);
}

#[test]
fn agent_run_picks_the_executor() {
    let mut shell = request(AgentType::Shell, "s", None);
    shell.parameters = Some("ls -la".to_string());
    match agent_run(&shell) {
        AgentRun::Shell(cmd) => assert_eq!(cmd, "ls -la"),
        other => panic!("expected a shell, got {:?}", other),
    }
    match agent_run(&request(AgentType::Conductor, "c", None)) {
        AgentRun::Conductor(p) => assert_eq!(p, ""),
        other => panic!("expected the conductor, got {:?}", other),
    }
    match agent_run(&request(AgentType::Search, "q", None)) {
        AgentRun::Unsupported(m) => assert_eq!(m, "No executor for Search agents"),
        other => panic!("expected no executor, got {:?}", other),
    }
}
