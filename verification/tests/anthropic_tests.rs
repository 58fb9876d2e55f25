use term_ide::config::{AxiomConfig, ProviderConfig};
use term_ide::llm::anthropic::{anthropic_body, anthropic_line_step, AnthropicProvider, AnthropicStep};
use term_ide::llm::message::{ChatMessage, Role};
use term_ide::llm::provider::ProviderStatus;
use term_ide::llm::setup::{provider_plans, ProviderPlan};

fn msg(role: Role, text: &str) -> ChatMessage {
    let mut m = ChatMessage::user(text);
    m.role = role;
    m
}

#[test]
fn anthropic_provider_settings() {
    let p = AnthropicProvider::new("key", "opus-4");
    assert_eq!(p.id(), "anthropic");
    assert_eq!(p.name(), "Anthropic");
    assert_eq!(p.model(), "opus-4");
    assert_eq!(p.list_models(), vec!["opus-4".to_string()]);
    assert_eq!(p.capabilities().max_context, 200_000);
    assert!(matches!(p.status(), ProviderStatus::Ready));
    assert_eq!(p.messages_url(), "https://api.anthropic.com/v1/messages");
    let p = p.with_base_url("http://proxy");
    assert_eq!(p.messages_url(), "http://proxy/v1/messages");
    let q = AnthropicProvider::new("", "m");
    assert!(matches!(q.status(), ProviderStatus::Unavailable(ref m) if m == "No API key configured"));
}

#[test]
fn anthropic_body_separates_system_text() {
    let ms = vec![
        msg(Role::System, " be brief "),
        msg(Role::User, "hi"),
        msg(Role::System, "and kind"),
        msg(Role::Assistant, "hello"),
    ];
    let (system, turns) = anthropic_body(&ms);
    assert_eq!(system.as_deref(), Some("be brief \nand kind"));
    assert_eq!(turns, vec![("user".to_string(), "hi".to_string()), ("assistant".to_string(), "hello".to_string())]);
    let (system, _) = anthropic_body(&[msg(Role::User, "x")]);
    assert!(system.is_none());
}

#[test]
fn anthropic_lines_become_steps() {
    assert!(matches!(anthropic_line_step("event: ping"), AnthropicStep::Skip));
    assert!(matches!(anthropic_line_step("data: [DONE]"), AnthropicStep::Stop));
    assert!(matches!(anthropic_line_step("data: {\"type\":\"message_stop\"}"), AnthropicStep::Stop));
    match anthropic_line_step("data: {\"type\":\"content_block_delta\",\"delta\":{\"text\":\"Hi\"}}") {
        AnthropicStep::Emit(t) => assert_eq!(t, "Hi"),
        _ => panic!("expected a chunk"),
    }
    assert!(matches!(anthropic_line_step("data: {\"type\":\"content_block_delta\",\"delta\":{\"text\":\"\"}}"), AnthropicStep::Skip));
    match anthropic_line_step("data: {\"type\":\"error\",\"error\":{\"message\":\"overloaded\"}}") {
        AnthropicStep::Fail(e) => assert_eq!(e.display_string(), "API error (500): overloaded"),
        _ => panic!("expected a failure"),
    }
    assert!(matches!(anthropic_line_step("data: {\"type\":\"ping\"}"), AnthropicStep::Skip));
    assert!(matches!(anthropic_line_step("data: nope"), AnthropicStep::Skip));
}

#[test]
fn plans_follow_the_configuration() {
    let mut config = AxiomConfig::default();
    config.llm.providers.insert("anthropic".to_string(), ProviderConfig {
        enabled: true,
        api_key: Some("k".to_string()),
        base_url: None,
        default_model: Some("sonnet-4".to_string()),
    });
    config.llm.providers.insert("gemini".to_string(), ProviderConfig {
        enabled: true,
        api_key: Some("${GOOGLE_API_KEY}".to_string()),
        base_url: None,
        default_model: None,
    });
    let plans = provider_plans(&config);
    assert_eq!(plans.len(), 2);
    assert!(matches!(&plans[0], ProviderPlan::Ollama { model, .. } if model == "gemma3:4b"));
    assert!(matches!(&plans[1], ProviderPlan::Anthropic { api_key, model } if api_key == "k" && model == "sonnet-4"));
}
