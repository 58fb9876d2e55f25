use term_ide::errors::{AxiomError, LlmError, PtyError};

#[test]
fn test_axiom_error_io_conversion() {
    let io_err = std::io::Error::new(std::io::ErrorKind::NotFound, "file not found");
    let axiom_err: AxiomError = io_err.into();
    assert!(matches!(axiom_err, AxiomError::Io(_)));
    assert!(axiom_err.display_string().contains("IO error"));
}

#[test]
fn test_axiom_error_pty_conversion() {
    let pty_err = PtyError::Create("failed to create".to_string());
    let axiom_err: AxiomError = pty_err.into();
    assert!(matches!(axiom_err, AxiomError::Pty(_)));
    assert!(axiom_err.display_string().contains("PTY error"));
}

#[test]
fn test_axiom_error_llm_conversion() {
    let llm_err = LlmError::NotConfigured("anthropic".to_string());
    let axiom_err: AxiomError = llm_err.into();
    assert!(matches!(axiom_err, AxiomError::Llm(_)));
    assert!(axiom_err.display_string().contains("LLM error"));
}

#[test]
fn test_axiom_error_config_display() {
    let err = AxiomError::Config("invalid setting".to_string());
    assert_eq!(err.display_string(), "Configuration error: invalid setting");
}

#[test]
fn test_axiom_error_channel_variants() {
    let send_err = AxiomError::ChannelSend;
    assert_eq!(send_err.display_string(), "Channel send error");
    let recv_err = AxiomError::ChannelRecv;
    assert_eq!(recv_err.display_string(), "Channel receive error");
}

#[test]
fn test_pty_error_variants() {
    let create_err = PtyError::Create("create failed".to_string());
    assert_eq!(create_err.display_string(), "Failed to create PTY: create failed");
    let spawn_err = PtyError::Spawn("spawn failed".to_string());
    assert_eq!(spawn_err.display_string(), "Failed to spawn shell: spawn failed");
    let resize_err = PtyError::Resize("resize failed".to_string());
    assert_eq!(resize_err.display_string(), "Failed to resize PTY: resize failed");
    let write_err = PtyError::Write("write failed".to_string());
    assert_eq!(write_err.display_string(), "PTY write error: write failed");
    let read_err = PtyError::Read("read failed".to_string());
    assert_eq!(read_err.display_string(), "PTY read error: read failed");
}

#[test]
fn test_pty_error_io_conversion() {
    let io_err = std::io::Error::new(std::io::ErrorKind::BrokenPipe, "pipe broken");
    let pty_err: PtyError = io_err.into();
    assert!(matches!(pty_err, PtyError::Io(_)));
    assert!(pty_err.display_string().contains("PTY IO error"));
}

#[test]
fn test_llm_error_variants() {
    let not_configured = LlmError::NotConfigured("ollama".to_string());
    assert_eq!(not_configured.display_string(), "Provider not configured: ollama");
    let network = LlmError::Network("connection refused".to_string());
    assert_eq!(network.display_string(), "Network error: connection refused");
    let api = LlmError::Api { status: 401, message: "unauthorized".to_string() };
    assert_eq!(api.display_string(), "API error (401): unauthorized");
    let stream = LlmError::Stream("stream interrupted".to_string());
    assert_eq!(stream.display_string(), "Streaming error: stream interrupted");
    let parse = LlmError::Parse("invalid json".to_string());
    assert_eq!(parse.display_string(), "Parse error: invalid json");
    let unavailable = LlmError::Unavailable("provider offline".to_string());
    assert_eq!(unavailable.display_string(), "Provider not available: provider offline");
}

#[test]
fn test_error_source_chain() {
    let io_err = std::io::Error::new(std::io::ErrorKind::NotFound, "underlying error");
    let pty_err = PtyError::Io(io_err);
    let axiom_err = AxiomError::Pty(pty_err);
    assert!(axiom_err.has_source());
}

#[test]
fn sources_only_for_wrapping_variants() {
    assert!(!AxiomError::Config("x".to_string()).has_source());
    assert!(!AxiomError::ChannelSend.has_source());
    assert!(!PtyError::Read("r".to_string()).has_source());
    let io_err = std::io::Error::new(std::io::ErrorKind::Other, "e");
    assert!(PtyError::Io(io_err).has_source());
}

#[test]
fn io_error_text_follows_prefix() {
    let io_err = std::io::Error::new(std::io::ErrorKind::Other, "disk full");
    let e = AxiomError::Io(io_err);
    assert_eq!(e.display_string(), "IO error: disk full");
}
