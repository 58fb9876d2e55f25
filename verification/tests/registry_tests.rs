use term_ide::config::{AxiomConfig, ProviderConfig};
use term_ide::llm::error::LlmError;
use term_ide::llm::provider::{ProviderCapabilities, ProviderStatus};
use term_ide::llm::registry::{LlmProvider, ProviderRegistry};

struct MockProvider {
    id: String,
    name: String,
    model: String,
    status: ProviderStatus,
}

impl MockProvider {
    fn new(id: &str, status: ProviderStatus) -> Self {
        Self {
            id: id.to_string(),
            name: format!("Mock {}", id),
            model: "mock-model".to_string(),
            status,
        }
    }
}

impl LlmProvider for MockProvider {
    fn id(&self) -> &str {
        &self.id
    }

    fn name(&self) -> &str {
        &self.name
    }

    fn model(&self) -> String {
        self.model.clone()
    }

    fn set_model(&mut self, model: &str) -> Result<(), LlmError> {
        self.model = model.to_string();
        Ok(())
    }

    fn list_models(&self) -> Result<Vec<String>, LlmError> {
        Ok(vec!["mock-model".to_string(), "mock-model-2".to_string()])
    }

    fn capabilities(&self) -> ProviderCapabilities {
        ProviderCapabilities::default()
    }

    fn status(&self) -> ProviderStatus {
        self.status.clone()
    }
}

/// A provider whose model list cannot be had.
struct Offline;

impl LlmProvider for Offline {
    fn id(&self) -> &str {
        "offline"
    }

    fn name(&self) -> &str {
        "Offline"
    }

    fn model(&self) -> String {
        String::new()
    }

    fn set_model(&mut self, _model: &str) -> Result<(), LlmError> {
        Err(LlmError::Timeout)
    }

    fn list_models(&self) -> Result<Vec<String>, LlmError> {
        Err(LlmError::Connection("refused".to_string()))
    }

    fn capabilities(&self) -> ProviderCapabilities {
        ProviderCapabilities::default()
    }

    fn status(&self) -> ProviderStatus {
        ProviderStatus::Unavailable("down".to_string())
    }
}

#[test]
fn test_registry_new() {
    let registry: ProviderRegistry<MockProvider> = ProviderRegistry::new();
    assert!(registry.provider_ids().is_empty());
    assert!(registry.active().is_none());
}

#[test]
fn test_registry_register_provider() {
    let mut registry = ProviderRegistry::new();
    registry.register(MockProvider::new("test", ProviderStatus::Ready));

    assert!(registry.provider_ids().contains(&"test".to_string()));
    assert!(registry.get("test").is_some());
}

#[test]
fn test_registry_get_provider() {
    let mut registry = ProviderRegistry::new();
    registry.register(MockProvider::new("anthropic", ProviderStatus::Ready));

    assert!(registry.get("anthropic").is_some());
    assert!(registry.get("nonexistent").is_none());
}

#[test]
fn test_registry_set_active() {
    let mut registry = ProviderRegistry::new();
    registry.register(MockProvider::new("anthropic", ProviderStatus::Ready));

    assert!(registry.set_active("anthropic").is_ok());
    assert_eq!(registry.active_id(), "anthropic");
    assert!(registry.active().is_some());
}

#[test]
fn test_registry_set_active_nonexistent() {
    let mut registry: ProviderRegistry<MockProvider> = ProviderRegistry::new();
    assert!(registry.set_active("nonexistent").is_err());
}

#[test]
fn test_registry_fallback_chain() {
    let mut config = AxiomConfig::default();
    config.llm.providers.insert("anthropic".to_string(), ProviderConfig::default());
    config.llm.providers.insert("ollama".to_string(), ProviderConfig::default());
    let mut registry = ProviderRegistry::from_config(&config);

    // First provider is unavailable
    registry.register(MockProvider::new("anthropic", ProviderStatus::Unavailable("No key".to_string())));
    // Second provider is ready
    registry.register(MockProvider::new("ollama", ProviderStatus::Ready));

    // Should fall back to ollama
    let provider = registry.get_with_fallback("anthropic");
    assert!(provider.is_some());
    assert_eq!(provider.unwrap().id(), "ollama");
}

#[test]
fn test_registry_available_providers() {
    let mut registry = ProviderRegistry::new();
    registry.register(MockProvider::new("provider1", ProviderStatus::Ready));
    registry.register(MockProvider::new("provider2", ProviderStatus::Ready));
    registry.register(MockProvider::new("provider3", ProviderStatus::Unavailable("down".to_string())));

    let available = registry.available_providers();
    assert_eq!(available.len(), 2);
}

#[test]
fn test_registry_all_models() {
    let mut registry = ProviderRegistry::new();
    registry.register(MockProvider::new("test", ProviderStatus::Ready));

    let models = registry.all_models();
    assert_eq!(models.len(), 2);
    assert!(models.iter().any(|(p, m)| p == "test" && m == "mock-model"));
}

#[test]
fn registry_register_replaces_same_id() {
    let mut registry = ProviderRegistry::new();
    registry.register(MockProvider::new("a", ProviderStatus::Ready));
    registry.register(MockProvider::new("b", ProviderStatus::Ready));
    registry.register(MockProvider::new("a", ProviderStatus::Busy));
    assert_eq!(registry.provider_ids(), vec!["a".to_string(), "b".to_string()]);
    assert_eq!(registry.get("a").unwrap().status(), ProviderStatus::Busy);
    assert_eq!(registry.get("b").unwrap().status(), ProviderStatus::Ready);
}

#[test]
fn registry_from_config_chain_and_default() {
    let mut config = AxiomConfig::default();
    let mut off = ProviderConfig::default();
    off.enabled = false;
    config.llm.providers.insert("gemini".to_string(), off);
    let registry: ProviderRegistry<MockProvider> = ProviderRegistry::from_config(&config);
    assert_eq!(registry.active_id(), "ollama");
    // Nothing registered: no provider, however the chain reads.
    assert!(registry.get_with_fallback("gemini").is_none());
}

#[test]
fn registry_fallback_prefers_ready_request_and_skips_disabled() {
    let mut config = AxiomConfig::default();
    let mut off = ProviderConfig::default();
    off.enabled = false;
    config.llm.providers.insert("gemini".to_string(), off);
    let mut registry = ProviderRegistry::from_config(&config);
    registry.register(MockProvider::new("gemini", ProviderStatus::Ready));
    registry.register(MockProvider::new("ollama", ProviderStatus::Ready));
    assert_eq!(registry.get_with_fallback("gemini").unwrap().id(), "gemini");
    assert_eq!(registry.get_with_fallback("missing").unwrap().id(), "ollama");
    assert_eq!(registry.pick_with_fallback("gemini", &vec![false, false]), None);
    assert_eq!(registry.pick_with_fallback("gemini", &vec![false, true]), Some(1));
    // A disabled provider is not in the chain.
    assert_eq!(registry.pick_with_fallback("missing", &vec![true, false]), None);
}

#[test]
fn registry_set_model_and_info() {
    let mut registry = ProviderRegistry::new();
    registry.register(MockProvider::new("x", ProviderStatus::Ready));
    assert!(registry.set_model("x", "bigger").is_ok());
    assert_eq!(registry.get("x").unwrap().model(), "bigger");
    match registry.set_model("y", "m") {
        Err(LlmError::ProviderUnavailable(m)) => assert_eq!(m, "y"),
        _ => panic!("expected an unavailable provider"),
    }
    let info = registry.provider_info();
    assert_eq!(info.len(), 1);
    assert_eq!(info[0].id, "x");
    assert_eq!(info[0].display(), "Mock x (bigger)");
    match registry.set_active("y") {
        Err(LlmError::ProviderUnavailable(m)) => assert_eq!(m, "Provider 'y' not registered"),
        _ => panic!("expected an unavailable provider"),
    }
}

#[test]
fn registry_models_skip_unlisted_provider() {
    let mut registry = ProviderRegistry::new();
    registry.register(Offline);
    let models = registry.all_models();
    assert!(models.is_empty());
    assert!(!registry.get("offline").unwrap().is_available());
    assert!(registry.available_providers().is_empty());
}
