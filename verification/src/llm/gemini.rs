//! The Gemini provider: its settings, the conversation it sends, and what
//! each line of its streamed answer holds.

use vstd::prelude::*;
use crate::llm::error::LlmError;
use crate::llm::message::{ChatMessage, MessageContent, Role, content_text};
use crate::llm::provider::{ProviderCapabilities, ProviderStatus};
use crate::text::{owned, concat, starts_with, chars_from};
use crate::llm::json::{Json, json_of, parse_json, field, str_of, u64_of, items_of, get_field, get_str, get_u64, get_items};

verus! {

/// The Gemini provider's settings.
pub struct GeminiProvider {
    api_key: String,
    base_url: String,
    model: String,
    models: Vec<String>,
}

/// The models offered.
pub open spec fn gemini_models() -> Seq<Seq<char>> {
    seq!["gemini-2.0-flash"@, "gemini-1.5-pro"@, "gemini-1.5-flash"@, "gemini-1.5-flash-8b"@]
}

impl GeminiProvider {
    /// The API key.
    pub closed spec fn key(&self) -> Seq<char> {
        self.api_key@
    }

    /// The base URL.
    pub closed spec fn url(&self) -> Seq<char> {
        self.base_url@
    }

    /// The model in use.
    pub closed spec fn model_name(&self) -> Seq<char> {
        self.model@
    }

    /// The models offered.
    pub closed spec fn offered(&self) -> Seq<Seq<char>> {
        crate::text::lines_view(self.models@)
    }

    /// A provider with this key and model, at Google's endpoint.
    pub fn new(api_key: &str, model: &str) -> (p: Self)
        ensures
            p.key() == api_key@,
            p.url() == "https://generativelanguage.googleapis.com"@,
            p.model_name() == model@,
            p.offered() == gemini_models(),
    {
        let mut models: Vec<String> = Vec::new();
        models.push(owned("gemini-2.0-flash"));
        models.push(owned("gemini-1.5-pro"));
        models.push(owned("gemini-1.5-flash"));
        models.push(owned("gemini-1.5-flash-8b"));
        let p = GeminiProvider {
            api_key: owned(api_key),
            base_url: owned("https://generativelanguage.googleapis.com"),
            model: owned(model),
            models,
        };
        assert(p.offered() =~= gemini_models());
        p
    }

    /// The same provider at another base URL.
    pub fn with_base_url(self, url: &str) -> (p: Self)
        ensures
            p.url() == url@,
            p.key() == self.key(),
            p.model_name() == self.model_name(),
            p.offered() == self.offered(),
    {
        GeminiProvider { base_url: owned(url), ..self }
    }

    /// The provider's identifier.
    pub fn id(&self) -> (s: &'static str)
        ensures
            s@ == "gemini"@,
    {
        "gemini"
    }

    /// The provider's display name.
    pub fn name(&self) -> (s: &'static str)
        ensures
            s@ == "Gemini"@,
    {
        "Gemini"
    }

    /// The model in use.
    pub fn model(&self) -> (m: String)
        ensures
            m@ == self.model_name(),
    {
        self.model.clone()
    }

    /// Change the model in use.
    pub fn set_model(&mut self, model: &str)
        ensures
            final(self).model_name() == model@,
            final(self).key() == old(self).key(),
            final(self).url() == old(self).url(),
            final(self).offered() == old(self).offered(),
    {
        self.model = owned(model);
    }

    /// The models offered.
    pub fn list_models(&self) -> (m: Vec<String>)
        ensures
            crate::text::lines_view(m@) == self.offered(),
    {
        crate::text::clone_lines(&self.models)
    }

    /// Streaming, tools, images and files, a million tokens of context and
    /// 8192 of output.
    pub fn capabilities(&self) -> (c: ProviderCapabilities)
        ensures
            c.streaming && c.function_calling && c.vision && c.file_context,
            c.max_context == 1_000_000,
            c.max_output == 8192,
    {
        ProviderCapabilities {
            streaming: true,
            function_calling: true,
            vision: true,
            file_context: true,
            max_context: 1_000_000,
            max_output: 8192,
        }
    }

    /// Ready when a key is configured.
    pub fn status(&self) -> (s: ProviderStatus)
        ensures
            self.key().len() == 0 ==> (s matches ProviderStatus::Unavailable(m) && m@ == "No API key configured"@),
            self.key().len() > 0 ==> s is Ready,
    {
        if self.api_key.as_str().is_empty() {
            ProviderStatus::Unavailable(owned("No API key configured"))
        } else {
            ProviderStatus::Ready
        }
    }

    /// The streaming endpoint for the model in use.
    pub fn stream_url(&self) -> (u: String)
        ensures
            u@ == self.url() + "/v1beta/models/"@ + self.model_name() + ":streamGenerateContent?key="@
                + self.key() + "&alt=sse"@,
    {
        let u = concat(self.base_url.as_str(), "/v1beta/models/");
        let u = concat(u.as_str(), self.model.as_str());
        let u = concat(u.as_str(), ":streamGenerateContent?key=");
        let u = concat(u.as_str(), self.api_key.as_str());
        concat(u.as_str(), "&alt=sse")
    }
}

/// The role name Gemini uses for a message's role.
pub open spec fn gemini_role(r: Role) -> Seq<char> {
    if r == Role::Assistant { "model"@ } else { "user"@ }
}

/// The turns sent: the messages that are not system ones, each with its
/// Gemini role and text.
pub open spec fn gemini_turns(ms: Seq<ChatMessage>) -> Seq<(Seq<char>, Seq<char>)>
    decreases ms.len(),
{
    if ms.len() == 0 {
        seq![]
    } else {
        let rest = gemini_turns(ms.drop_last());
        let m = ms.last();
        if m.role == Role::System { rest } else { rest.push((gemini_role(m.role), content_text(m.content))) }
    }
}

/// The system instruction sent: the text of the last system message.
pub open spec fn gemini_system(ms: Seq<ChatMessage>) -> Option<Seq<char>>
    decreases ms.len(),
{
    if ms.len() == 0 {
        None
    } else if ms.last().role == Role::System {
        Some(content_text(ms.last().content))
    } else {
        gemini_system(ms.drop_last())
    }
}

/// The conversation as Gemini takes it: the turns (role and text) and the
/// system instruction.
pub fn gemini_contents(messages: &[ChatMessage]) -> (r: (Vec<(&'static str, String)>, Option<String>))
    ensures
        r.0@.len() == gemini_turns(messages@).len(),
        forall|k: int| 0 <= k < r.0@.len() ==> (#[trigger] r.0@[k]).0@ == gemini_turns(messages@)[k].0
            && r.0@[k].1@ == gemini_turns(messages@)[k].1,
        match r.1 {
            Some(s) => gemini_system(messages@) == Some(s@),
            None => gemini_system(messages@) is None,
        },
{
    let ghost ms = messages@;
    let mut turns: Vec<(&'static str, String)> = Vec::new();
    let mut system: Option<String> = None;
    let mut i: usize = 0;
    while i < messages.len()
        invariant
            ms == messages@,
            i <= ms.len(),
            turns@.len() == gemini_turns(ms.take(i as int)).len(),
            forall|k: int| 0 <= k < turns@.len() ==> (#[trigger] turns@[k]).0@ == gemini_turns(ms.take(i as int))[k].0
                && turns@[k].1@ == gemini_turns(ms.take(i as int))[k].1,
            match system {
                Some(s) => gemini_system(ms.take(i as int)) == Some(s@),
                None => gemini_system(ms.take(i as int)) is None,
            },
        decreases ms.len() - i,
    {
        assert(ms.take(i + 1).drop_last() =~= ms.take(i as int));
        let m = &messages[i];
        let text = m.text();
        match m.role {
            Role::System => {
                system = Some(text);
            },
            Role::Assistant => {
                turns.push(("model", text));
            },
            Role::User => {
                turns.push(("user", text));
            },
        }
        i = i + 1;
    }
    assert(ms.take(ms.len() as int) =~= ms);
    (turns, system)
}

/// What the streaming logic reads of one data line: `error`, when present,
/// with its `code` (when a number) and `message` (when a string); and
/// `candidates`, when an array, with each candidate's `content.parts`, when
/// an array, and each part's `text`, when a string.
#[derive(Debug, Clone)]
pub struct GeminiData {
    pub error: Option<(Option<u64>, Option<String>)>,
    pub candidates: Option<Vec<Option<Vec<Option<String>>>>>,
}

/// The plain view of the error field.
pub open spec fn error_view(e: Option<(Option<u64>, Option<String>)>) -> Option<(Option<u64>, Option<Seq<char>>)> {
    match e {
        Some((c, m)) => Some((c, match m { Some(s) => Some(s@), None => None })),
        None => None,
    }
}

/// The plain view of one candidate's parts.
pub open spec fn parts_view(p: Option<Vec<Option<String>>>) -> Option<Seq<Option<Seq<char>>>> {
    match p {
        Some(v) => Some(v@.map_values(|t: Option<String>| match t { Some(s) => Some(s@), None => None })),
        None => None,
    }
}

/// The plain view of the candidates field.
pub open spec fn candidates_view(c: Option<Vec<Option<Vec<Option<String>>>>>) -> Option<Seq<Option<Seq<Option<Seq<char>>>>>> {
    match c {
        Some(v) => Some(v@.map_values(|p: Option<Vec<Option<String>>>| parts_view(p))),
        None => None,
    }
}

/// The texts of one candidate's parts: its `content.parts`, when an array,
/// and each part's `text`, when a string.
pub open spec fn candidate_parts(c: Json) -> Option<Seq<Option<Seq<char>>>> {
    match items_of(field(field(Some(c), "content"@), "parts"@)) {
        Some(ps) => Some(ps.map_values(|p: Json| str_of(field(Some(p), "text"@)))),
        None => None,
    }
}

/// The fields of a data line parsed as JSON (`None` when it is not JSON):
/// `error`, when present, with its `code` (when an unsigned integer) and
/// `message` (when a string); `candidates`, when an array, with each
/// candidate's part texts.
pub open spec fn gemini_fields(data: Seq<char>) -> Option<(Option<(Option<u64>, Option<Seq<char>>)>, Option<Seq<Option<Seq<Option<Seq<char>>>>>>)> {
    match json_of(data) {
        Some(v) => Some((
            match field(Some(v), "error"@) {
                Some(e) => Some((u64_of(field(Some(e), "code"@)), str_of(field(Some(e), "message"@)))),
                None => None,
            },
            match items_of(field(Some(v), "candidates"@)) {
                Some(cs) => Some(cs.map_values(|c: Json| candidate_parts(c))),
                None => None,
            },
        )),
        None => None,
    }
}

/// The part texts of one candidate.
fn candidate_parts_of(c: &Json) -> (r: Option<Vec<Option<String>>>)
    ensures
        parts_view(r) == candidate_parts(*c),
{
    match get_items(get_field(get_field(Some(c), "content"), "parts")) {
        Some(ps) => {
            let mut out: Vec<Option<String>> = Vec::new();
            let mut i: usize = 0;
            while i < ps.len()
                invariant
                    i <= ps@.len(),
                    out@.len() == i,
                    forall|k: int| 0 <= k < i ==> opt_text(#[trigger] out@[k]) == str_of(field(Some(ps@[k]), "text"@)),
                decreases ps@.len() - i,
            {
                out.push(get_str(get_field(Some(&ps[i]), "text")));
                i = i + 1;
            }
            proof {
                let ghost w = out@.map_values(|t: Option<String>| match t { Some(s) => Some(s@), None => None });
                assert(w =~= ps@.map_values(|p: Json| str_of(field(Some(p), "text"@)))) by {
                    assert forall|k: int| 0 <= k < w.len() implies w[k] == str_of(field(Some(ps@[k]), "text"@)) by {
                        assert(opt_text(out@[k]) == str_of(field(Some(ps@[k]), "text"@)));
                    }
                }
            }
            Some(out)
        },
        None => None,
    }
}

/// The view of an optional text.
pub open spec fn opt_text(t: Option<String>) -> Option<Seq<char>> {
    match t {
        Some(s) => Some(s@),
        None => None,
    }
}

/// The part texts of each candidate, in order.
fn candidate_list(cs: &Vec<Json>) -> (r: Vec<Option<Vec<Option<String>>>>)
    ensures
        r@.map_values(|p: Option<Vec<Option<String>>>| parts_view(p)) == cs@.map_values(|c: Json| candidate_parts(c)),
{
    let mut out: Vec<Option<Vec<Option<String>>>> = Vec::new();
    let mut i: usize = 0;
    while i < cs.len()
        invariant
            i <= cs@.len(),
            out@.len() == i,
            forall|k: int| 0 <= k < i ==> parts_view(#[trigger] out@[k]) == candidate_parts(cs@[k]),
        decreases cs@.len() - i,
    {
        out.push(candidate_parts_of(&cs[i]));
        i = i + 1;
    }
    assert(out@.map_values(|p: Option<Vec<Option<String>>>| parts_view(p)) =~= cs@.map_values(|c: Json| candidate_parts(c)));
    out
}

/// Reads a data line as JSON and takes its `error` and its candidates'
/// part texts.
fn parse_gemini_data(data: &str) -> (r: Option<GeminiData>)
    ensures
        match r {
            Some(d) => gemini_fields(data@) == Some((error_view(d.error), candidates_view(d.candidates))),
            None => gemini_fields(data@) is None,
        },
{
    let v = parse_json(data);
    let j = match &v {
        Some(j) => j,
        None => return None,
    };
    let error = match get_field(Some(j), "error") {
        Some(e) => Some((get_u64(get_field(Some(e), "code")), get_str(get_field(Some(e), "message")))),
        None => None,
    };
    let candidates = match get_items(get_field(Some(j), "candidates")) {
        Some(cs) => Some(candidate_list(cs)),
        None => None,
    };
    Some(GeminiData { error, candidates })
}

/// The non-empty texts of the parts, in order.
pub open spec fn part_texts_of(parts: Seq<Option<Seq<char>>>) -> Seq<Seq<char>>
    decreases parts.len(),
{
    if parts.len() == 0 {
        seq![]
    } else {
        let rest = part_texts_of(parts.drop_last());
        match parts.last() {
            Some(t) => if t.len() > 0 { rest.push(t) } else { rest },
            None => rest,
        }
    }
}

/// The non-empty texts of all candidates' parts, in order.
pub open spec fn candidate_texts(cs: Seq<Option<Seq<Option<Seq<char>>>>>) -> Seq<Seq<char>>
    decreases cs.len(),
{
    if cs.len() == 0 {
        seq![]
    } else {
        candidate_texts(cs.drop_last()) + match cs.last() {
            Some(ps) => part_texts_of(ps),
            None => seq![],
        }
    }
}

/// What one line of the streamed answer asks for.
#[derive(Debug, Clone)]
pub enum GeminiStep {
    /// Nothing to pass on.
    Skip,
    /// The answer failed with this error.
    Fail(LlmError),
    /// These chunks of the answer (possibly none).
    Emit(Vec<String>),
}

/// `s` is the step for these fields: none (not JSON) is skipped; an error
/// fails the answer (code 500 and "Unknown error" when missing); otherwise
/// the non-empty part texts are passed on.
pub open spec fn step_for_fields(
    s: GeminiStep,
    f: Option<(Option<(Option<u64>, Option<Seq<char>>)>, Option<Seq<Option<Seq<Option<Seq<char>>>>>>)>,
) -> bool {
    match f {
        None => s is Skip,
        Some((err, cands)) => match err {
            Some((code, msg)) => s matches GeminiStep::Fail(LlmError::Api { status, message })
                && status == (match code { Some(c) => c as u16, None => 500u16 })
                && message@ == (match msg { Some(m) => m, None => "Unknown error"@ }),
            None => s matches GeminiStep::Emit(v)
                && crate::text::lines_view(v@) == match cands {
                    Some(cs) => candidate_texts(cs),
                    None => seq![],
                },
        },
    }
}

/// The step for the fields read from a data line.
pub fn gemini_step_for(fields: Option<GeminiData>) -> (s: GeminiStep)
    ensures
        step_for_fields(s, match fields {
            Some(d) => Some((error_view(d.error), candidates_view(d.candidates))),
            None => None,
        }),
{
    match fields {
        None => GeminiStep::Skip,
        Some(d) => {
            match d.error {
                Some((code, msg)) => {
                    let status: u16 = match code { Some(c) => c as u16, None => 500u16 };
                    let message = match msg { Some(m) => m, None => owned("Unknown error") };
                    GeminiStep::Fail(LlmError::Api { status, message })
                },
                None => {
                    let mut out: Vec<String> = Vec::new();
                    match d.candidates {
                        Some(cs) => {
                            let ghost cv = candidates_view(Some(cs));
                            let n = cs.len();
                            let mut rest = cs;
                            let ghost all = rest@;
                            let mut i: usize = 0;
                            while rest.len() > 0
                                invariant
                                    all.len() == n,
                                    i <= n,
                                    rest@ == all.skip(i as int),
                                    crate::text::lines_view(out@) == candidate_texts(
                                        all.take(i as int).map_values(|p: Option<Vec<Option<String>>>| parts_view(p))),
                                decreases rest@.len(),
                            {
                                let c = rest.remove(0);
                                assert(c == all[i as int]);
                                assert(rest@ =~= all.skip(i + 1));
                                let ghost before = crate::text::lines_view(out@);
                                assert(all.take(i + 1).map_values(|p: Option<Vec<Option<String>>>| parts_view(p)).drop_last()
                                    =~= all.take(i as int).map_values(|p: Option<Vec<Option<String>>>| parts_view(p)));
                                match c {
                                    Some(parts) => {
                                        let ghost pv = parts@.map_values(|t: Option<String>| match t { Some(s) => Some(s@), None => None });
                                        let m = parts.len();
                                        let mut j: usize = 0;
                                        while j < m
                                            invariant
                                                m == parts@.len(),
                                                j <= m,
                                                pv == parts@.map_values(|t: Option<String>| match t { Some(s) => Some(s@), None => None }),
                                                crate::text::lines_view(out@) == before + part_texts_of(pv.take(j as int)),
                                            decreases m - j,
                                        {
                                            assert(pv.take(j + 1).drop_last() =~= pv.take(j as int));
                                            match &parts[j] {
                                                Some(t) => {
                                                    if !t.as_str().is_empty() {
                                                        let ghost b2 = out@;
                                                        out.push(t.clone());
                                                        assert(crate::text::lines_view(out@) =~= crate::text::lines_view(b2).push(t@));
                                                    }
                                                },
                                                None => {},
                                            }
                                            j = j + 1;
                                        }
                                        assert(pv.take(m as int) =~= pv);
                                    },
                                    None => {
                                        assert(before + seq![] =~= before);
                                    },
                                }
                                i = i + 1;
                            }
                            assert(all.take(n as int) =~= all);
                        },
                        None => {
                            assert(crate::text::lines_view(out@) =~= Seq::<Seq<char>>::empty());
                        },
                    }
                    GeminiStep::Emit(out)
                },
            }
        },
    }
}

/// The step for one line of the streamed answer: lines other than
/// `data: ...` are skipped; the data is parsed and acted on as
/// `gemini_step_for` says.
pub fn gemini_line_step(line: &str) -> (s: GeminiStep)
    ensures
        !"data: "@.is_prefix_of(line@) ==> s is Skip,
        "data: "@.is_prefix_of(line@) ==> step_for_fields(s, gemini_fields(line@.skip(6))),
{
    proof { reveal_strlit("data: "); }
    if !starts_with(line, "data: ") {
        return GeminiStep::Skip;
    }
    let data = chars_from(line, 6);
    gemini_step_for(parse_gemini_data(data.as_str()))
}

} // verus!
