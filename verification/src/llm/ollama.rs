//! The Ollama provider: its settings, and what each line of its streamed
//! chat response asks for.

use vstd::prelude::*;
use crate::text::owned;
use crate::llm::json::{json_of, parse_json, field, str_of, bool_of, get_field, get_str, get_bool};

verus! {

/// Ollama provider for local LLM inference.
#[derive(Debug, Clone)]
pub struct OllamaProvider {
    /// Base URL of the Ollama API.
    base_url: String,
    /// The model in use.
    model: String,
}

/// The default address of a local Ollama server.
pub open spec fn default_base_url() -> Seq<char> {
    "http://localhost:11434"@
}

impl OllamaProvider {
    /// The base URL.
    pub closed spec fn url(&self) -> Seq<char> {
        self.base_url@
    }

    /// The model in use.
    pub closed spec fn model_name(&self) -> Seq<char> {
        self.model@
    }

    /// A provider for the local server, using `model`.
    pub fn new(model: &str) -> (p: Self)
        ensures
            p.url() == default_base_url(),
            p.model_name() == model@,
    {
        OllamaProvider { base_url: owned("http://localhost:11434"), model: owned(model) }
    }

    /// The same provider using `model`.
    pub fn with_model(self, model: &str) -> (p: Self)
        ensures
            p.url() == self.url(),
            p.model_name() == model@,
    {
        OllamaProvider { base_url: self.base_url, model: owned(model) }
    }

    /// The same provider at another base URL.
    pub fn with_base_url(self, url: &str) -> (p: Self)
        ensures
            p.url() == url@,
            p.model_name() == self.model_name(),
    {
        OllamaProvider { base_url: owned(url), model: self.model }
    }

    /// Change the model in use.
    pub fn set_model(&mut self, model: &str)
        ensures
            final(self).url() == old(self).url(),
            final(self).model_name() == model@,
    {
        self.model = owned(model);
    }

    /// The model in use.
    pub fn model(&self) -> (m: String)
        ensures
            m@ == self.model_name(),
    {
        self.model.clone()
    }

    /// The base URL.
    pub fn base_url(&self) -> (u: &str)
        ensures
            u@ == self.url(),
    {
        self.base_url.as_str()
    }

    /// The provider's display name.
    pub fn name(&self) -> (n: &'static str)
        ensures
            n@ == "Ollama"@,
    {
        "Ollama"
    }
}

impl Default for OllamaProvider {
    /// The local server with the `gemma3:4b` model.
    fn default() -> (p: Self)
        ensures
            p.url() == default_base_url(),
            p.model_name() == "gemma3:4b"@,
    {
        Self::new("gemma3:4b")
    }
}

/// What the streaming logic reads of one line of the response: the `done`
/// flag, when it is a boolean, and `message.content`, when it is a string.
#[derive(Debug, Clone)]
pub struct StreamLine {
    pub done: Option<bool>,
    pub content: Option<String>,
}

/// What to do with one line of a streamed response.
#[derive(Debug, Clone)]
pub enum StreamAction {
    /// Nothing to pass on.
    Skip,
    /// The response is complete.
    Stop,
    /// A chunk of the answer to pass on.
    Emit(String),
}

/// The fields of a line parsed as JSON (`None` when it is not JSON): the
/// `done` flag when it is a boolean, and `message.content` when it is a
/// string.
pub open spec fn stream_line_fields(line: Seq<char>) -> Option<(Option<bool>, Option<Seq<char>>)> {
    match json_of(line) {
        Some(v) => Some((
            bool_of(field(Some(v), "done"@)),
            str_of(field(field(Some(v), "message"@), "content"@)),
        )),
        None => None,
    }
}

/// The fields of a line as plain values.
pub open spec fn line_fields_view(l: StreamLine) -> (Option<bool>, Option<Seq<char>>) {
    (l.done, match l.content { Some(c) => Some(c@), None => None })
}

/// Reads a line of the response as JSON and takes its `done` flag and its
/// `message.content`.
fn parse_stream_line(line: &str) -> (r: Option<StreamLine>)
    ensures
        match r {
            Some(l) => stream_line_fields(line@) == Some(line_fields_view(l)),
            None => stream_line_fields(line@) is None,
        },
{
    let v = parse_json(line);
    match &v {
        Some(j) => {
            let done = get_bool(get_field(Some(j), "done"));
            let content = get_str(get_field(get_field(Some(j), "message"), "content"));
            Some(StreamLine { done, content })
        },
        None => None,
    }
}

/// The action for the fields of a line: stop when `done` is true, emit a
/// non-empty content, skip anything else (and a line that is not JSON).
pub open spec fn fields_action(f: Option<(Option<bool>, Option<Seq<char>>)>) -> Option<Seq<char>> {
    match f {
        Some((done, content)) =>
            if done == Some(true) {
                None
            } else {
                match content {
                    Some(c) => if c.len() > 0 { Some(c) } else { Some(Seq::empty()) },
                    None => Some(Seq::empty()),
                }
            },
        None => Some(Seq::empty()),
    }
}

/// The action for the fields read from a line: stop when `done` is true,
/// emit a non-empty content, skip anything else (and a line that is not
/// JSON).
pub fn action_for_fields(fields: Option<StreamLine>) -> (a: StreamAction)
    ensures
        match fields {
            Some(l) =>
                if l.done == Some(true) {
                    a is Stop
                } else {
                    match l.content {
                        Some(c) => if c@.len() > 0 { a matches StreamAction::Emit(e) && e@ == c@ } else { a is Skip },
                        None => a is Skip,
                    }
                },
            None => a is Skip,
        },
{
    match fields {
        Some(l) => {
            if let Some(true) = l.done {
                StreamAction::Stop
            } else {
                match l.content {
                    Some(c) => if !c.as_str().is_empty() { StreamAction::Emit(c) } else { StreamAction::Skip },
                    None => StreamAction::Skip,
                }
            }
        },
        None => StreamAction::Skip,
    }
}

/// The action for one line of a streamed chat response: an empty line is
/// skipped; any other is parsed, and acted on as `action_for_fields` says.
pub fn stream_line_action(line: &str) -> (a: StreamAction)
    ensures
        line@.len() == 0 ==> a is Skip,
        line@.len() > 0 ==> match fields_action(stream_line_fields(line@)) {
            None => a is Stop,
            Some(c) => if c.len() > 0 { a matches StreamAction::Emit(e) && e@ == c } else { a is Skip },
        },
{
    if line.is_empty() {
        return StreamAction::Skip;
    }
    action_for_fields(parse_stream_line(line))
}

} // verus!
