//! Which providers the configuration sets up, with which settings, and
//! which one starts active.

use vstd::prelude::*;
use crate::config::{AxiomConfig, ProviderConfig, is_usable_api_key, usable_key};
use crate::llm::error::LlmError;
use crate::llm::registry::{ProviderRegistry, LlmProvider, RegistryView};
use crate::text::owned;

verus! {

/// A provider to create, as the configuration sets it up.
#[derive(Debug, Clone)]
pub enum ProviderPlan {
    /// The local server, at this base URL (the default one when none), with
    /// this model.
    Ollama { base_url: Option<String>, model: String },
    /// Anthropic, with this key and model.
    Anthropic { api_key: String, model: String },
    /// Gemini, with this key and model.
    Gemini { api_key: String, model: String },
}

/// A plan as plain values.
pub enum PlanV {
    Ollama(Option<Seq<char>>, Seq<char>),
    Anthropic(Seq<char>, Seq<char>),
    Gemini(Seq<char>, Seq<char>),
}

/// The view of an optional text.
pub open spec fn text_opt(t: Option<String>) -> Option<Seq<char>> {
    match t {
        Some(s) => Some(s@),
        None => None,
    }
}

/// The value of a plan.
pub open spec fn plan_view(p: ProviderPlan) -> PlanV {
    match p {
        ProviderPlan::Ollama { base_url, model } => PlanV::Ollama(text_opt(base_url), model@),
        ProviderPlan::Anthropic { api_key, model } => PlanV::Anthropic(api_key@, model@),
        ProviderPlan::Gemini { api_key, model } => PlanV::Gemini(api_key@, model@),
    }
}

/// The model configured, or `default`.
pub open spec fn model_or(c: ProviderConfig, default: Seq<char>) -> Seq<char> {
    match c.default_model {
        Some(m) => m@,
        None => default,
    }
}

/// The local server's plan: its settings when configured and enabled; the
/// defaults when it is not configured at all; none when it is disabled.
pub open spec fn ollama_plan(c: Option<ProviderConfig>) -> Seq<PlanV> {
    match c {
        None => seq![PlanV::Ollama(None, "gemma3:4b"@)],
        Some(c) => if c.enabled { seq![PlanV::Ollama(text_opt(c.base_url), model_or(c, "gemma3:4b"@))] } else { seq![] },
    }
}

/// Anthropic's plan: when configured, enabled, with a usable key and a
/// model.
pub open spec fn anthropic_plan(c: Option<ProviderConfig>) -> Seq<PlanV> {
    match c {
        Some(c) => if c.enabled && usable_key(text_opt(c.api_key)) && c.default_model is Some {
            seq![PlanV::Anthropic(c.api_key->0@, c.default_model->0@)]
        } else {
            seq![]
        },
        None => seq![],
    }
}

/// Gemini's plan: when configured, enabled, and with a usable key; its
/// model is the configured one, or `gemini-2.0-flash`.
pub open spec fn gemini_plan(c: Option<ProviderConfig>) -> Seq<PlanV> {
    match c {
        Some(c) => if c.enabled && usable_key(text_opt(c.api_key)) {
            seq![PlanV::Gemini(c.api_key->0@, model_or(c, "gemini-2.0-flash"@))]
        } else {
            seq![]
        },
        None => seq![],
    }
}

/// The providers the configuration sets up, in order: the local server,
/// Anthropic, Gemini.
pub open spec fn planned(config: AxiomConfig) -> Seq<PlanV> {
    let m = config.llm.providers;
    ollama_plan(m.lookup("ollama"@)) + anthropic_plan(m.lookup("anthropic"@)) + gemini_plan(m.lookup("gemini"@))
}

/// The model configured, or `default`.
fn model_or_exec(c: &ProviderConfig, default: &str) -> (m: String)
    ensures
        m@ == model_or(*c, default@),
{
    match &c.default_model {
        Some(m) => owned(m.as_str()),
        None => owned(default),
    }
}

fn copy_opt(t: &Option<String>) -> (r: Option<String>)
    ensures
        text_opt(r) == text_opt(*t),
{
    match t {
        Some(s) => Some(owned(s.as_str())),
        None => None,
    }
}

/// The providers the configuration sets up, in order: the local server
/// (with its defaults when it is not configured, none when disabled), then
/// Anthropic and Gemini when enabled with a usable key (Anthropic only with
/// a model configured).
pub fn provider_plans(config: &AxiomConfig) -> (r: Vec<ProviderPlan>)
    requires
        config.llm.providers.wf(),
    ensures
        r@.map_values(|p: ProviderPlan| plan_view(p)) == planned(*config),
{
    let mut r: Vec<ProviderPlan> = Vec::new();
    match config.get_provider("ollama") {
        Some(c) => {
            if c.enabled {
                r.push(ProviderPlan::Ollama { base_url: copy_opt(&c.base_url), model: model_or_exec(c, "gemma3:4b") });
            }
        },
        None => r.push(ProviderPlan::Ollama { base_url: None, model: owned("gemma3:4b") }),
    }
    let ghost first = r@.map_values(|p: ProviderPlan| plan_view(p));
    assert(first =~= ollama_plan(config.llm.providers.lookup("ollama"@)));
    match config.get_provider("anthropic") {
        Some(c) => {
            if c.enabled && is_usable_api_key(&c.api_key) {
                if let Some(m) = &c.default_model {
                    let key = match &c.api_key { Some(k) => owned(k.as_str()), None => String::new() };
                    r.push(ProviderPlan::Anthropic { api_key: key, model: owned(m.as_str()) });
                }
            }
        },
        None => {},
    }
    let ghost second = r@.map_values(|p: ProviderPlan| plan_view(p));
    assert(second =~= first + anthropic_plan(config.llm.providers.lookup("anthropic"@)));
    match config.get_provider("gemini") {
        Some(c) => {
            if c.enabled && is_usable_api_key(&c.api_key) {
                let key = match &c.api_key { Some(k) => owned(k.as_str()), None => String::new() };
                r.push(ProviderPlan::Gemini { api_key: key, model: model_or_exec(c, "gemini-2.0-flash") });
            }
        },
        None => {},
    }
    assert(r@.map_values(|p: ProviderPlan| plan_view(p))
        =~= second + gemini_plan(config.llm.providers.lookup("gemini"@)));
    r
}

/// The active provider at the start: the configured default when it is
/// registered, else the local server when it is, else unchanged.
pub open spec fn started_active<P>(v: RegistryView<P>, default: Seq<char>) -> RegistryView<P> {
    if v.ids.contains(default) {
        RegistryView { active: default, ..v }
    } else if v.ids.contains("ollama"@) {
        RegistryView { active: "ollama"@, ..v }
    } else {
        v
    }
}

/// Make the configured default provider active, or the local server when
/// the default is not registered.
pub fn activate_default<P: LlmProvider>(registry: &mut ProviderRegistry<P>, default: &str)
    requires
        old(registry).wf(),
    ensures
        final(registry).wf(),
        final(registry)@ == started_active(old(registry)@, default@),
{
    let r: Result<(), LlmError> = registry.set_active(default);
    if r.is_err() {
        let _ = registry.set_active("ollama");
    }
}

} // verus!
