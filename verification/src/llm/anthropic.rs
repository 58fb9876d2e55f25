//! The Anthropic provider: its settings, the request it sends, and what
//! each line of its streamed answer holds. Its identifier and name are
//! `anthropic` and `Anthropic`; it offers the model it is configured with.

use vstd::prelude::*;
use crate::llm::error::LlmError;
use crate::llm::json::{json_of, parse_json, field, str_of, get_field, get_str};
use crate::llm::message::{ChatMessage, Role, content_text, role_name};
use crate::llm::provider::{ProviderCapabilities, ProviderStatus};
use crate::text::{owned, concat, starts_with, chars_from, same_text, trim, trim_view, lines_view, clone_lines};

verus! {

/// The Anthropic provider's settings.
pub struct AnthropicProvider {
    api_key: String,
    base_url: String,
    model: String,
    models: Vec<String>,
}

impl AnthropicProvider {
    /// The API key.
    pub closed spec fn key(&self) -> Seq<char> {
        self.api_key@
    }

    /// The base URL.
    pub closed spec fn url(&self) -> Seq<char> {
        self.base_url@
    }

    /// The model in use.
    pub closed spec fn model_name(&self) -> Seq<char> {
        self.model@
    }

    /// The models offered.
    pub closed spec fn offered(&self) -> Seq<Seq<char>> {
        lines_view(self.models@)
    }

    /// A provider with this key and model, at Anthropic's endpoint,
    /// offering that model.
    pub fn new(api_key: &str, model: &str) -> (p: Self)
        ensures
            p.key() == api_key@,
            p.url() == "https://api.anthropic.com"@,
            p.model_name() == model@,
            p.offered() == seq![model@],
    {
        let mut models: Vec<String> = Vec::new();
        models.push(owned(model));
        let p = AnthropicProvider {
            api_key: owned(api_key),
            base_url: owned("https://api.anthropic.com"),
            model: owned(model),
            models,
        };
        assert(p.offered() =~= seq![model@]);
        p
    }

    /// The same provider at another base URL (a proxy).
    pub fn with_base_url(self, url: &str) -> (p: Self)
        ensures
            p.url() == url@,
            p.key() == self.key(),
            p.model_name() == self.model_name(),
            p.offered() == self.offered(),
    {
        AnthropicProvider { base_url: owned(url), ..self }
    }

    /// The provider's identifier.
    pub fn id(&self) -> (s: &'static str)
        ensures
            s@ == "anthropic"@,
    {
        "anthropic"
    }

    /// The provider's display name.
    pub fn name(&self) -> (s: &'static str)
        ensures
            s@ == "Anthropic"@,
    {
        "Anthropic"
    }

    /// The model in use.
    pub fn model(&self) -> (m: String)
        ensures
            m@ == self.model_name(),
    {
        owned(self.model.as_str())
    }

    /// Change the model in use.
    pub fn set_model(&mut self, model: &str)
        ensures
            final(self).model_name() == model@,
            final(self).key() == old(self).key(),
            final(self).url() == old(self).url(),
            final(self).offered() == old(self).offered(),
    {
        self.model = owned(model);
    }

    /// The models offered.
    pub fn list_models(&self) -> (m: Vec<String>)
        ensures
            lines_view(m@) == self.offered(),
    {
        clone_lines(&self.models)
    }

    /// Streaming, tools, images and files, 200,000 tokens of context and
    /// 8192 of output.
    pub fn capabilities(&self) -> (c: ProviderCapabilities)
        ensures
            c.streaming && c.function_calling && c.vision && c.file_context,
            c.max_context == 200_000,
            c.max_output == 8192,
    {
        ProviderCapabilities {
            streaming: true,
            function_calling: true,
            vision: true,
            file_context: true,
            max_context: 200_000,
            max_output: 8192,
        }
    }

    /// Ready when a key is configured.
    pub fn status(&self) -> (s: ProviderStatus)
        ensures
            self.key().len() == 0 ==> (s matches ProviderStatus::Unavailable(m) && m@ == "No API key configured"@),
            self.key().len() > 0 ==> s is Ready,
    {
        if self.api_key.as_str().is_empty() {
            ProviderStatus::Unavailable(owned("No API key configured"))
        } else {
            ProviderStatus::Ready
        }
    }

    /// The API key, sent in the `x-api-key` header.
    pub fn api_key(&self) -> (k: &str)
        ensures
            k@ == self.key(),
    {
        self.api_key.as_str()
    }

    /// The endpoint for messages.
    pub fn messages_url(&self) -> (u: String)
        ensures
            u@ == self.url() + "/v1/messages"@,
    {
        concat(self.base_url.as_str(), "/v1/messages")
    }
}

/// The system messages' texts, each followed by a newline.
pub open spec fn anthropic_system_text(ms: Seq<ChatMessage>) -> Seq<char>
    decreases ms.len(),
{
    if ms.len() == 0 {
        seq![]
    } else {
        let rest = anthropic_system_text(ms.drop_last());
        if ms.last().role == Role::System { rest + content_text(ms.last().content) + "\n"@ } else { rest }
    }
}

/// The turns sent: the messages that are not system ones, each with its
/// role's name and its text, in order.
pub open spec fn anthropic_turns(ms: Seq<ChatMessage>) -> Seq<(Seq<char>, Seq<char>)>
    decreases ms.len(),
{
    if ms.len() == 0 {
        seq![]
    } else {
        let rest = anthropic_turns(ms.drop_last());
        let m = ms.last();
        if m.role == Role::System { rest } else { rest.push((role_name(m.role), content_text(m.content))) }
    }
}

/// The system text sent: the system messages' texts, trimmed; none when
/// there is no system message.
pub open spec fn anthropic_system(ms: Seq<ChatMessage>) -> Option<Seq<char>> {
    if anthropic_system_text(ms).len() == 0 { None } else { Some(trim_view(anthropic_system_text(ms))) }
}

/// The values of turns.
pub open spec fn turns_view(v: Seq<(String, String)>) -> Seq<(Seq<char>, Seq<char>)> {
    v.map_values(|t: (String, String)| (t.0@, t.1@))
}

/// The request's system text and turns: the system messages' texts, each
/// followed by a newline and then trimmed (none when there is no system
/// message), and the other messages' roles and texts in order.
pub fn anthropic_body(messages: &[ChatMessage]) -> (r: (Option<String>, Vec<(String, String)>))
    ensures
        match r.0 {
            Some(s) => anthropic_system(messages@) == Some(s@),
            None => anthropic_system(messages@) is None,
        },
        turns_view(r.1@) == anthropic_turns(messages@),
{
    let ghost ms = messages@;
    let mut system = String::new();
    let mut turns: Vec<(String, String)> = Vec::new();
    let mut i: usize = 0;
    while i < messages.len()
        invariant
            ms == messages@,
            i <= ms.len(),
            system@ == anthropic_system_text(ms.take(i as int)),
            turns_view(turns@) == anthropic_turns(ms.take(i as int)),
        decreases ms.len() - i,
    {
        assert(ms.take(i + 1).drop_last() =~= ms.take(i as int));
        let m = &messages[i];
        let text = m.text();
        match m.role {
            Role::System => {
                let s = concat(system.as_str(), text.as_str());
                system = concat(s.as_str(), "\n");
            },
            _ => {
                let ghost before = turns@;
                turns.push((owned(m.role_str()), text));
                assert(turns_view(turns@) =~= turns_view(before).push((role_name(m.role), content_text(m.content))));
            },
        }
        i = i + 1;
    }
    assert(ms.take(ms.len() as int) =~= ms);
    let sys = if system.as_str().unicode_len() == 0 { None } else { Some(trim(system.as_str())) };
    (sys, turns)
}

/// What one line of the streamed answer asks for.
#[derive(Debug, Clone)]
pub enum AnthropicStep {
    /// Nothing to pass on.
    Skip,
    /// The answer is complete.
    Stop,
    /// The answer failed with this error.
    Fail(LlmError),
    /// This chunk of the answer.
    Emit(String),
}

/// `s` is the step for the data `data` of a line: `[DONE]` and a
/// `message_stop` event end the answer; a `content_block_delta` event
/// passes on its `delta.text` when that is a non-empty string; an `error`
/// event fails the answer with status 500 and its `error.message` (or
/// "Unknown error"); anything else, and data that is not JSON, is skipped.
pub open spec fn anthropic_step_for(s: AnthropicStep, data: Seq<char>) -> bool {
    if data == "[DONE]"@ {
        s is Stop
    } else {
        match json_of(data) {
            None => s is Skip,
            Some(v) => {
                let kind = str_of(field(Some(v), "type"@));
                if kind == Some("content_block_delta"@) {
                    match str_of(field(field(Some(v), "delta"@), "text"@)) {
                        Some(t) => if t.len() > 0 { s matches AnthropicStep::Emit(e) && e@ == t } else { s is Skip },
                        None => s is Skip,
                    }
                } else if kind == Some("message_stop"@) {
                    s is Stop
                } else if kind == Some("error"@) {
                    s matches AnthropicStep::Fail(LlmError::Api { status, message }) && status == 500
                        && message@ == match str_of(field(field(Some(v), "error"@), "message"@)) {
                            Some(m) => m,
                            None => "Unknown error"@,
                        }
                } else {
                    s is Skip
                }
            },
        }
    }
}

/// The step for one line of the streamed answer: a line that is not
/// `data: ` is skipped; the rest of a data line decides as
/// `anthropic_step_for` says.
pub fn anthropic_line_step(line: &str) -> (s: AnthropicStep)
    ensures
        !"data: "@.is_prefix_of(line@) ==> s is Skip,
        "data: "@.is_prefix_of(line@) ==> anthropic_step_for(s, line@.skip(6)),
{
    proof { reveal_strlit("data: "); }
    if !starts_with(line, "data: ") {
        return AnthropicStep::Skip;
    }
    let data = chars_from(line, 6);
    if same_text(data.as_str(), "[DONE]") {
        return AnthropicStep::Stop;
    }
    let v = parse_json(data.as_str());
    let j = match &v {
        Some(j) => j,
        None => return AnthropicStep::Skip,
    };
    let kind = get_str(get_field(Some(j), "type"));
    let kind = match kind {
        Some(k) => k,
        None => String::new(),
    };
    let ghost k = str_of(field(Some(*j), "type"@));
    proof { reveal_strlit(""); }
    if same_text(kind.as_str(), "content_block_delta") {
        assert(k == Some("content_block_delta"@)) by {
            if k is None {
                reveal_strlit("content_block_delta");
                assert(""@.len() != "content_block_delta"@.len());
            }
        }
        match get_str(get_field(get_field(Some(j), "delta"), "text")) {
            Some(t) => if t.as_str().unicode_len() > 0 { AnthropicStep::Emit(t) } else { AnthropicStep::Skip },
            None => AnthropicStep::Skip,
        }
    } else if same_text(kind.as_str(), "message_stop") {
        assert(k == Some("message_stop"@)) by {
            if k is None {
                reveal_strlit("message_stop");
                assert(""@.len() != "message_stop"@.len());
            }
        }
        AnthropicStep::Stop
    } else if same_text(kind.as_str(), "error") {
        assert(k == Some("error"@)) by {
            if k is None {
                reveal_strlit("error");
                assert(""@.len() != "error"@.len());
            }
        }
        let message = match get_str(get_field(get_field(Some(j), "error"), "message")) {
            Some(m) => m,
            None => owned("Unknown error"),
        };
        AnthropicStep::Fail(LlmError::Api { status: 500, message })
    } else {
        AnthropicStep::Skip
    }
}

} // verus!
