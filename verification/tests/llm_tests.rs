use term_ide::llm::error::{HttpFailure, LlmError};
use term_ide::llm::message::{
    build_prompt_with_context, format_file_context, ChatMessage, ContentPart, MessageContent, Role,
};
use term_ide::llm::gemini::{gemini_line_step, GeminiStep};
use term_ide::llm::ollama::{action_for_fields, stream_line_action, OllamaProvider, StreamAction, StreamLine};
use term_ide::llm::provider::{ProviderCapabilities, ProviderStatus};
use term_ide::llm::registry::ProviderInfo;

#[test]
fn test_llm_error_connection_display() {
    let err = LlmError::Connection("refused".to_string());
    assert_eq!(err.display_string(), "Connection error: refused");
}

#[test]
fn test_llm_error_api_display() {
    let err = LlmError::Api { status: 401, message: "unauthorized".to_string() };
    assert_eq!(err.display_string(), "API error (401): unauthorized");
}

#[test]
fn test_llm_error_model_not_found() {
    let err = LlmError::ModelNotFound("gpt-5".to_string());
    assert_eq!(err.display_string(), "Model not found: gpt-5");
}

#[test]
fn test_llm_error_provider_unavailable() {
    let err = LlmError::ProviderUnavailable("ollama".to_string());
    assert_eq!(err.display_string(), "Provider unavailable: ollama");
}

#[test]
fn test_llm_error_timeout() {
    let err = LlmError::Timeout;
    assert_eq!(err.display_string(), "Request timed out");
}

#[test]
fn test_llm_error_invalid_request() {
    let err = LlmError::InvalidRequest("bad params".to_string());
    assert_eq!(err.display_string(), "Invalid request: bad params");
}

#[test]
fn test_llm_error_rate_limited_with_retry() {
    let err = LlmError::RateLimited { retry_after: Some(60) };
    assert_eq!(err.display_string(), "Rate limited, retry after 60 seconds");
}

#[test]
fn test_llm_error_rate_limited_without_retry() {
    let err = LlmError::RateLimited { retry_after: None };
    assert_eq!(err.display_string(), "Rate limited");
}

#[test]
fn test_llm_error_internal() {
    let err = LlmError::Internal("panic".to_string());
    assert_eq!(err.display_string(), "Internal error: panic");
}

#[test]
fn test_llm_error_from_io_error() {
    let io_err = std::io::Error::new(std::io::ErrorKind::NotFound, "file not found");
    let llm_err: LlmError = io_err.into();
    assert!(matches!(llm_err, LlmError::Internal(_)));
}

#[test]
fn test_llm_error_debug() {
    let err = LlmError::Timeout;
    let debug = format!("{:?}", err);
    assert!(debug.contains("Timeout"));
}

#[test]
fn test_llm_error_clone() {
    let err = LlmError::Api { status: 500, message: "error".to_string() };
    let cloned = err.clone();
    assert!(matches!(cloned, LlmError::Api { status: 500, .. }));
}

#[test]
fn http_failures_map_to_errors() {
    let e = LlmError::from_http_failure(HttpFailure::Status { code: 429, body: Some("slow".to_string()) });
    assert!(matches!(e, LlmError::RateLimited { retry_after: None }));
    let e = LlmError::from_http_failure(HttpFailure::Status { code: 403, body: Some("no".to_string()) });
    assert_eq!(e.display_string(), "API error (403): Authentication failed");
    let e = LlmError::from_http_failure(HttpFailure::Status { code: 500, body: Some("oops".to_string()) });
    assert_eq!(e.display_string(), "API error (500): oops");
    let e = LlmError::from_http_failure(HttpFailure::Status { code: 502, body: None });
    assert_eq!(e.display_string(), "API error (502): Unknown error");
    let e = LlmError::from_http_failure(HttpFailure::Transport("dns".to_string()));
    assert_eq!(e.display_string(), "Connection error: dns");
}

#[test]
fn json_error_becomes_internal() {
    let err = serde_json::from_str::<serde_json::Value>("{").unwrap_err();
    let e = LlmError::from_json_error(&err);
    match e {
        LlmError::Internal(m) => assert!(m.starts_with("JSON error: ")),
        _ => panic!("expected an internal error"),
    }
}

#[test]
fn test_user_message() {
    let msg = ChatMessage::user("Hello");
    assert_eq!(msg.role_str(), "user");
    assert_eq!(msg.text(), "Hello");
}

#[test]
fn test_user_with_files() {
    let msg = ChatMessage::user_with_files(
        "Review this code",
        vec![("main.rs".to_string(), "fn main() {}".to_string())],
    );
    assert_eq!(msg.role, Role::User);
    assert_eq!(msg.content.files().len(), 1);
}

#[test]
fn test_format_file_context() {
    let ctx = format_file_context("main.rs", "fn main() {}", None);
    assert!(ctx.contains("File: main.rs"));
    assert!(ctx.contains("fn main() {}"));
}

#[test]
fn format_file_context_exact_text() {
    let ctx = format_file_context("a.rs", "x", Some((3, 7)));
    assert_eq!(ctx, "<file_context>\nFile: a.rs (lines 3-7)\n```\nx\n```\n</file_context>");
}

#[test]
fn prompt_with_and_without_files() {
    assert_eq!(build_prompt_with_context("hi", &[]), "hi");
    let files = vec![("a.rs".to_string(), "x".to_string(), None)];
    assert_eq!(
        build_prompt_with_context("hi", &files),
        "<file_context>\nFile: a.rs\n```\nx\n```\n</file_context>\n\nhi"
    );
}

#[test]
fn multipart_text_joins_text_parts() {
    let content = MessageContent::Parts(vec![
        ContentPart::Text { text: "one".to_string() },
        ContentPart::File { path: "p".to_string(), content: "c".to_string(), line_range: None },
        ContentPart::Text { text: "two".to_string() },
    ]);
    assert_eq!(content.as_text(), "one\ntwo");
    assert!(!content.is_text());
    assert_eq!(content.files().len(), 1);
    assert_eq!(ChatMessage::system("s").role_str(), "system");
    assert_eq!(ChatMessage::assistant("a").role_str(), "assistant");
}

#[test]
fn test_provider_capabilities_default() {
    let caps = ProviderCapabilities::default();
    assert!(!caps.streaming);
    assert!(!caps.function_calling);
    assert!(!caps.vision);
    assert!(!caps.file_context);
    assert_eq!(caps.max_context, 0);
    assert_eq!(caps.max_output, 0);
}

#[test]
fn test_provider_capabilities_custom() {
    let caps = ProviderCapabilities {
        streaming: true,
        function_calling: true,
        vision: false,
        file_context: true,
        max_context: 100_000,
        max_output: 4096,
    };
    assert!(caps.streaming);
    assert!(caps.function_calling);
    assert_eq!(caps.max_context, 100_000);
}

#[test]
fn test_provider_status_ready() {
    let status = ProviderStatus::Ready;
    assert!(status.is_ready());
}

#[test]
fn test_provider_status_busy() {
    let status = ProviderStatus::Busy;
    assert!(!status.is_ready());
}

#[test]
fn test_provider_status_unavailable() {
    let status = ProviderStatus::Unavailable("No API key".to_string());
    assert!(!status.is_ready());
    assert!(matches!(status, ProviderStatus::Unavailable(msg) if msg == "No API key"));
}

#[test]
fn test_provider_status_rate_limited() {
    let status = ProviderStatus::RateLimited;
    assert!(!status.is_ready());
}

#[test]
fn test_provider_status_equality() {
    assert_eq!(ProviderStatus::Ready, ProviderStatus::Ready);
    assert_eq!(ProviderStatus::Busy, ProviderStatus::Busy);
    assert_eq!(ProviderStatus::RateLimited, ProviderStatus::RateLimited);
    assert_ne!(ProviderStatus::Ready, ProviderStatus::Busy);
}

fn info(status: ProviderStatus) -> ProviderInfo {
    ProviderInfo {
        id: "test".to_string(),
        name: "Test".to_string(),
        model: "model".to_string(),
        status,
    }
}

#[test]
fn test_provider_info_display() {
    let info = ProviderInfo {
        id: "anthropic".to_string(),
        name: "Anthropic".to_string(),
        model: "sonnet-3".to_string(),
        status: ProviderStatus::Ready,
    };
    assert_eq!(info.display(), "Anthropic (sonnet-3)");
}

#[test]
fn test_provider_info_status_indicators() {
    assert_eq!(info(ProviderStatus::Ready).status_indicator(), "●");
    assert_eq!(info(ProviderStatus::Busy).status_indicator(), "◐");
    assert_eq!(info(ProviderStatus::Unavailable("error".to_string())).status_indicator(), "○");
    assert_eq!(info(ProviderStatus::RateLimited).status_indicator(), "◌");
}

#[test]
fn ollama_settings() {
    let p = OllamaProvider::new("llama3");
    assert_eq!(p.base_url(), "http://localhost:11434");
    assert_eq!(p.model(), "llama3");
    let mut p = p.with_model("qwen").with_base_url("http://h:1");
    assert_eq!(p.base_url(), "http://h:1");
    assert_eq!(p.model(), "qwen");
    p.set_model("m2");
    assert_eq!(p.model(), "m2");
    assert_eq!(p.name(), "Ollama");
    assert_eq!(OllamaProvider::default().model(), "gemma3:4b");
}

#[test]
fn ollama_stream_lines() {
    assert!(matches!(stream_line_action(""), StreamAction::Skip));
    assert!(matches!(stream_line_action("not json"), StreamAction::Skip));
    assert!(matches!(stream_line_action(r#"{"done":true}"#), StreamAction::Stop));
    match stream_line_action(r#"{"message":{"content":"Hi"},"done":false}"#) {
        StreamAction::Emit(c) => assert_eq!(c, "Hi"),
        _ => panic!("expected a chunk"),
    }
    assert!(matches!(stream_line_action(r#"{"message":{"content":""}}"#), StreamAction::Skip));
    assert!(matches!(action_for_fields(None), StreamAction::Skip));
    assert!(matches!(
        action_for_fields(Some(StreamLine { done: Some(true), content: Some("x".to_string()) })),
        StreamAction::Stop
    ));
}

#[test]
fn gemini_data_lines_become_steps() {
    assert!(matches!(gemini_line_step("event: x"), GeminiStep::Skip));
    assert!(matches!(gemini_line_step("data: not json"), GeminiStep::Skip));
    let line = r#"data: {"candidates":[{"content":{"parts":[{"text":"Hel"},{"text":""},{"text":"lo"}]}},{"content":{}}]}"#;
    match gemini_line_step(line) {
        GeminiStep::Emit(chunks) => assert_eq!(chunks, vec!["Hel".to_string(), "lo".to_string()]),
        _ => panic!("expected chunks"),
    }
    match gemini_line_step(r#"data: {"error":{"code":403,"message":"denied"}}"#) {
        GeminiStep::Fail(e) => assert_eq!(e.display_string(), "API error (403): denied"),
        _ => panic!("expected a failure"),
    }
    match gemini_line_step(r#"data: {"error":{"code":-1}}"#) {
        GeminiStep::Fail(e) => assert_eq!(e.display_string(), "API error (500): Unknown error"),
        _ => panic!("expected a failure"),
    }
}
