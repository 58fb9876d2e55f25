//! Configuration: the providers of the language models and the CLI
//! agents, `${VAR}` references in provider settings, and the overrides
//! that environment variables give. Reading the files and the environment
//! is the caller's.

use vstd::prelude::*;
use vstd::utf8::{encode_utf8, decode_utf8, is_char_boundary, valid_utf8, length_of_first_scalar, pop_first_scalar, encode_utf8_valid_utf8};
use crate::text::{owned, concat, same_text, starts_with, byte_slice};

verus! {

/// Settings of one model provider.
#[derive(Debug, Clone)]
pub struct ProviderConfig {
    pub enabled: bool,
    pub api_key: Option<String>,
    pub base_url: Option<String>,
    pub default_model: Option<String>,
}

impl Default for ProviderConfig {
    /// Enabled, with nothing set.
    fn default() -> (p: Self)
        ensures
            p.enabled,
            p.api_key is None,
            p.base_url is None,
            p.default_model is None,
    {
        ProviderConfig { enabled: true, api_key: None, base_url: None, default_model: None }
    }
}

/// Providers by name, in the order they were added.
#[derive(Debug, Clone)]
pub struct ProviderMap {
    entries: Vec<(String, ProviderConfig)>,
}

/// The names of a list of providers.
pub open spec fn provider_names(es: Seq<(String, ProviderConfig)>) -> Seq<Seq<char>> {
    es.map_values(|e: (String, ProviderConfig)| e.0@)
}

impl ProviderMap {
    /// The providers, in order.
    pub closed spec fn entries_view(&self) -> Seq<(String, ProviderConfig)> {
        self.entries@
    }

    /// No name occurs twice.
    pub open spec fn wf(&self) -> bool {
        forall|i: int, j: int| 0 <= i < j < self.entries_view().len()
            ==> #[trigger] self.entries_view()[i].0@ != #[trigger] self.entries_view()[j].0@
    }

    /// The settings of the provider named `name`, if any.
    pub open spec fn lookup(&self, name: Seq<char>) -> Option<ProviderConfig> {
        lookup_in(self.entries_view(), name)
    }

    /// No providers.
    pub fn new() -> (m: Self)
        ensures
            m.wf(),
            m.entries_view() == Seq::<(String, ProviderConfig)>::empty(),
    {
        ProviderMap { entries: Vec::new() }
    }

    /// The providers, in order.
    pub fn entries(&self) -> (r: &Vec<(String, ProviderConfig)>)
        ensures
            r@ == self.entries_view(),
    {
        &self.entries
    }

    fn position(&self, name: &str) -> (r: Option<usize>)
        ensures
            match r {
                Some(i) => i < self.entries_view().len() && self.entries_view()[i as int].0@ == name@,
                None => forall|i: int| 0 <= i < self.entries_view().len() ==> self.entries_view()[i].0@ != name@,
            },
    {
        let mut i: usize = 0;
        while i < self.entries.len()
            invariant
                i <= self.entries@.len(),
                forall|k: int| 0 <= k < i ==> self.entries@[k].0@ != name@,
            decreases self.entries@.len() - i,
        {
            if same_text(self.entries[i].0.as_str(), name) {
                return Some(i);
            }
            i = i + 1;
        }
        None
    }

    /// Whether a provider is named `name`.
    pub fn contains_key(&self, name: &str) -> (b: bool)
        requires
            self.wf(),
        ensures
            b == self.lookup(name@) is Some,
    {
        match self.position(name) {
            Some(i) => {
                proof { lemma_lookup_at(self.entries_view(), name@, i as int); }
                true
            }
            None => {
                proof { lemma_lookup_absent(self.entries_view(), name@); }
                false
            }
        }
    }

    /// The provider named `name`, if any.
    pub fn get(&self, name: &str) -> (r: Option<&ProviderConfig>)
        requires
            self.wf(),
        ensures
            match r {
                Some(c) => self.lookup(name@) == Some(*c),
                None => self.lookup(name@) is None,
            },
    {
        match self.position(name) {
            Some(i) => {
                proof { lemma_lookup_at(self.entries_view(), name@, i as int); }
                Some(&self.entries[i].1)
            }
            None => {
                proof { lemma_lookup_absent(self.entries_view(), name@); }
                None
            }
        }
    }

    /// Set the provider named `name` (added at the end when new).
    pub fn insert(&mut self, name: String, config: ProviderConfig)
        requires
            old(self).wf(),
        ensures
            final(self).wf(),
            final(self).lookup(name@) == Some(config),
            forall|n: Seq<char>| n != name@ ==> #[trigger] final(self).lookup(n) == old(self).lookup(n),
    {
        match self.position(name.as_str()) {
            Some(i) => {
                let ghost es = self.entries@;
                let ghost nm = name@;
                self.entries.set(i, (name, config));
                proof {
                    assert forall|n: Seq<char>| n != nm implies #[trigger] lookup_in(self.entries@, n) == lookup_in(es, n) by {
                        lemma_lookup_update(es, i as int, self.entries@[i as int], n);
                    }
                    lemma_lookup_update(es, i as int, self.entries@[i as int], nm);
                    assert forall|a: int, b: int| 0 <= a < b < self.entries@.len() implies
                        #[trigger] self.entries@[a].0@ != #[trigger] self.entries@[b].0@ by {
                        if a != i && b != i {
                            assert(es[a].0@ != es[b].0@);
                        } else if a == i {
                            assert(es[a].0@ != es[b].0@);
                        } else {
                            assert(es[a].0@ != es[b].0@);
                        }
                    }
                }
            }
            None => {
                let ghost es = self.entries@;
                self.entries.push((name, config));
                proof {
                    assert(self.entries@.drop_last() =~= es);
                }
            }
        }
    }
}

/// The settings of the provider named `name` in `es`, the last entry of
/// the name winning.
pub open spec fn lookup_in(es: Seq<(String, ProviderConfig)>, name: Seq<char>) -> Option<ProviderConfig>
    decreases es.len(),
{
    if es.len() == 0 {
        None
    } else if es.last().0@ == name {
        Some(es.last().1)
    } else {
        lookup_in(es.drop_last(), name)
    }
}

proof fn lemma_lookup_at(es: Seq<(String, ProviderConfig)>, name: Seq<char>, i: int)
    requires
        0 <= i < es.len(),
        es[i].0@ == name,
        forall|a: int, b: int| 0 <= a < b < es.len() ==> #[trigger] es[a].0@ != #[trigger] es[b].0@,
    ensures
        lookup_in(es, name) == Some(es[i].1),
    decreases es.len(),
{
    if i < es.len() - 1 {
        assert(es.last().0@ != es[i].0@);
        lemma_lookup_at(es.drop_last(), name, i);
    }
}

proof fn lemma_lookup_absent(es: Seq<(String, ProviderConfig)>, name: Seq<char>)
    requires
        forall|i: int| 0 <= i < es.len() ==> es[i].0@ != name,
    ensures
        lookup_in(es, name) is None,
    decreases es.len(),
{
    if es.len() > 0 {
        lemma_lookup_absent(es.drop_last(), name);
    }
}

proof fn lemma_lookup_update(es: Seq<(String, ProviderConfig)>, i: int, e: (String, ProviderConfig), n: Seq<char>)
    requires
        0 <= i < es.len(),
        es[i].0@ == e.0@,
        forall|a: int, b: int| 0 <= a < b < es.len() ==> #[trigger] es[a].0@ != #[trigger] es[b].0@,
    ensures
        lookup_in(es.update(i, e), n) == if n == e.0@ { Some(e.1) } else { lookup_in(es, n) },
    decreases es.len(),
{
    let u = es.update(i, e);
    if i == es.len() - 1 {
        assert(u.drop_last() =~= es.drop_last());
    } else {
        assert(u.drop_last() =~= es.drop_last().update(i, e));
        assert(u.last() == es.last());
        assert(es[i].0@ != es.last().0@);
        lemma_lookup_update(es.drop_last(), i, e, n);
    }
}

/// Settings of the language models.
#[derive(Debug, Clone)]
pub struct LlmConfig {
    /// The provider used unless another is chosen.
    pub default_provider: String,
    /// The providers.
    pub providers: ProviderMap,
}

/// Settings of a CLI agent: the program run in a terminal.
#[derive(Debug, Clone)]
pub struct CliAgentConfig {
    /// Display name.
    pub name: String,
    /// The program.
    pub command: String,
    /// Arguments before the prompt.
    pub default_args: Vec<String>,
    /// Whether the agent runs in the workspace directory.
    pub use_cwd: bool,
    /// Environment variables to set.
    pub env: Vec<(String, String)>,
}

impl CliAgentConfig {
    /// The arguments for `prompt`: the default arguments, then the prompt
    /// unless it is empty.
    pub fn command_args(&self, prompt: &str) -> (args: Vec<String>)
        ensures
            args@.map_values(|a: String| a@) == self.default_args@.map_values(|a: String| a@)
                + (if prompt@.len() > 0 { seq![prompt@] } else { Seq::<Seq<char>>::empty() }),
    {
        let mut args: Vec<String> = Vec::new();
        let mut i: usize = 0;
        while i < self.default_args.len()
            invariant
                i <= self.default_args@.len(),
                args@.map_values(|a: String| a@) == self.default_args@.take(i as int).map_values(|a: String| a@),
            decreases self.default_args@.len() - i,
        {
            let ghost before = args@;
            let a = owned(self.default_args[i].as_str());
            args.push(a);
            proof {
                assert(args@ =~= before.push(a));
                assert(self.default_args@.take(i + 1) =~= self.default_args@.take(i as int).push(self.default_args@[i as int]));
                assert(args@.map_values(|a: String| a@) =~= before.map_values(|a: String| a@).push(a@));
                assert(self.default_args@.take(i + 1).map_values(|a: String| a@)
                    =~= self.default_args@.take(i as int).map_values(|a: String| a@).push(self.default_args@[i as int]@));
            }
            i = i + 1;
        }
        assert(self.default_args@.take(self.default_args@.len() as int) =~= self.default_args@);
        if prompt.as_bytes().len() > 0 {
            let ghost before = args@;
            args.push(owned(prompt));
            assert(args@.map_values(|a: String| a@) =~= before.map_values(|a: String| a@) + seq![prompt@]);
        } else {
            proof {
                if prompt@.len() > 0 {
                    assert(encode_utf8(prompt@).len() > 0);
                }
            }
            assert(args@.map_values(|a: String| a@) =~= args@.map_values(|a: String| a@) + Seq::<Seq<char>>::empty());
        }
        args
    }
}

/// The whole configuration.
#[derive(Debug, Clone)]
pub struct AxiomConfig {
    pub llm: LlmConfig,
    /// CLI agents, by id.
    pub cli_agents: Vec<(String, CliAgentConfig)>,
}

impl Default for AxiomConfig {
    /// The local model server as the only provider, and the default one.
    fn default() -> (c: Self)
        ensures
            c.llm.default_provider@ == "ollama"@,
            c.llm.providers.wf(),
            c.llm.providers.lookup("ollama"@) matches Some(p) && p.enabled,
            c.cli_agents@.len() == 0,
    {
        let mut providers = ProviderMap::new();
        providers.insert(owned("ollama"), ProviderConfig {
            enabled: true,
            api_key: None,
            base_url: Some(owned("http://localhost:11434")),
            default_model: Some(owned("gemma3:4b")),
        });
        AxiomConfig { llm: LlmConfig { default_provider: owned("ollama"), providers }, cli_agents: Vec::new() }
    }
}

impl AxiomConfig {
    /// The provider named `name`, if any.
    pub fn get_provider(&self, name: &str) -> (r: Option<&ProviderConfig>)
        requires
            self.llm.providers.wf(),
        ensures
            match r {
                Some(c) => self.llm.providers.lookup(name@) == Some(*c),
                None => self.llm.providers.lookup(name@) is None,
            },
    {
        self.llm.providers.get(name)
    }
}

/// An API key can be used: it is set, not empty, and not a `${VAR}`
/// reference left unexpanded.
pub open spec fn usable_key(key: Option<Seq<char>>) -> bool {
    match key {
        Some(k) => k.len() > 0 && !"${"@.is_prefix_of(k),
        None => false,
    }
}

/// Whether an API key can be used.
pub fn is_usable_api_key(key: &Option<String>) -> (b: bool)
    ensures
        b == usable_key(match key { Some(k) => Some(k@), None => None }),
{
    match key {
        Some(k) => {
            let nonempty = k.as_str().as_bytes().len() > 0;
            proof {
                if k@.len() > 0 { assert(encode_utf8(k@).len() > 0); }
                if k@.len() == 0 { assert(encode_utf8(k@) =~= Seq::<u8>::empty()); }
            }
            nonempty && !starts_with(k.as_str(), "${")
        }
        None => false,
    }
}

/// Values of environment variables that override the configuration (an
/// unset variable is `None`).
#[derive(Debug, Clone)]
pub struct EnvOverrides {
    pub anthropic_api_key: Option<String>,
    pub google_api_key: Option<String>,
    pub gemini_api_key: Option<String>,
    pub openai_api_key: Option<String>,
    pub ollama_base_url: Option<String>,
    pub default_provider: Option<String>,
}

/// The value is set and not empty.
pub open spec fn given(v: Option<String>) -> bool {
    v matches Some(s) && s@.len() > 0
}

/// The value of a set, non-empty value.
fn given_value(v: &Option<String>) -> (r: Option<String>)
    ensures
        given(*v) ==> (r matches Some(s) && s@ == v->0@),
        !given(*v) ==> r is None,
{
    match v {
        Some(s) => {
            proof {
                if s@.len() > 0 { assert(encode_utf8(s@).len() > 0); }
                if s@.len() == 0 { assert(encode_utf8(s@) =~= Seq::<u8>::empty()); }
            }
            if s.as_str().as_bytes().len() > 0 { Some(owned(s.as_str())) } else { None }
        }
        None => None,
    }
}

/// The settings of the provider named `name` (the default settings when
/// absent).
pub open spec fn provider_or_default(m: ProviderMap, name: Seq<char>) -> ProviderConfig {
    match m.lookup(name) {
        Some(p) => p,
        None => ProviderConfig { enabled: true, api_key: None, base_url: None, default_model: None },
    }
}

fn copy_text(v: &Option<String>) -> (r: Option<String>)
    ensures
        match (*v, r) {
            (Some(a), Some(b)) => a@ == b@,
            (None, None) => true,
            _ => false,
        },
{
    match v {
        Some(s) => Some(owned(s.as_str())),
        None => None,
    }
}

/// The same texts.
pub open spec fn same_opt(a: Option<String>, b: Option<String>) -> bool {
    match (a, b) {
        (Some(x), Some(y)) => x@ == y@,
        (None, None) => true,
        _ => false,
    }
}

impl AxiomConfig {
    /// The settings of the provider named `name`, or the default settings.
    fn provider_copy(&self, name: &str) -> (p: ProviderConfig)
        requires
            self.llm.providers.wf(),
        ensures
            ({
                let q = provider_or_default(self.llm.providers, name@);
                p.enabled == q.enabled && same_opt(p.api_key, q.api_key)
                    && same_opt(p.base_url, q.base_url) && same_opt(p.default_model, q.default_model)
            }),
    {
        match self.llm.providers.get(name) {
            Some(c) => ProviderConfig {
                enabled: c.enabled,
                api_key: copy_text(&c.api_key),
                base_url: copy_text(&c.base_url),
                default_model: copy_text(&c.default_model),
            },
            None => ProviderConfig::default(),
        }
    }

    /// Apply the environment's overrides: an Anthropic key enables the
    /// `anthropic` provider with that key; a Google key (else a Gemini key)
    /// enables the `gemini` provider with that key; an OpenAI key enables
    /// `openai`; an Ollama URL sets `ollama`'s base URL; a default provider
    /// replaces the default. Empty values are ignored; a provider that is
    /// not configured is added with the default settings first.
    pub fn apply_env_overrides(&mut self, env: &EnvOverrides)
        requires
            old(self).llm.providers.wf(),
        ensures
            final(self).llm.providers.wf(),
            final(self).llm.default_provider@ == (if given(env.default_provider) {
                env.default_provider->0@
            } else {
                old(self).llm.default_provider@
            }),
            (given(env.google_api_key) || given(env.gemini_api_key)) ==> (final(self).llm.providers.lookup("gemini"@) matches Some(p)
                && p.enabled
                && (p.api_key matches Some(k) && k@ == (if given(env.google_api_key) { env.google_api_key->0@ } else { env.gemini_api_key->0@ }))),
            !(given(env.google_api_key) || given(env.gemini_api_key))
                ==> final(self).llm.providers.lookup("gemini"@) == old(self).llm.providers.lookup("gemini"@),
            given(env.anthropic_api_key) ==> (final(self).llm.providers.lookup("anthropic"@) matches Some(p)
                && p.enabled && (p.api_key matches Some(k) && k@ == env.anthropic_api_key->0@)),
            !given(env.anthropic_api_key)
                ==> final(self).llm.providers.lookup("anthropic"@) == old(self).llm.providers.lookup("anthropic"@),
            !given(env.openai_api_key)
                ==> final(self).llm.providers.lookup("openai"@) == old(self).llm.providers.lookup("openai"@),
            !given(env.ollama_base_url)
                ==> final(self).llm.providers.lookup("ollama"@) == old(self).llm.providers.lookup("ollama"@),
            given(env.openai_api_key) ==> (final(self).llm.providers.lookup("openai"@) matches Some(p)
                && p.enabled && (p.api_key matches Some(k) && k@ == env.openai_api_key->0@)),
            given(env.ollama_base_url) ==> (final(self).llm.providers.lookup("ollama"@) matches Some(p)
                && (p.base_url matches Some(u) && u@ == env.ollama_base_url->0@)),
            forall|n: Seq<char>| n != "gemini"@ && n != "openai"@ && n != "ollama"@ && n != "anthropic"@
                ==> #[trigger] final(self).llm.providers.lookup(n) == old(self).llm.providers.lookup(n),
    {
        proof {
            reveal_strlit("gemini");
            reveal_strlit("openai");
            reveal_strlit("ollama");
            reveal_strlit("anthropic");
            assert("gemini"@[0] != "openai"@[0]);
            assert("gemini"@[0] != "ollama"@[0]);
            assert("openai"@[1] != "ollama"@[1]);
            assert("gemini"@ != "openai"@ && "gemini"@ != "ollama"@ && "openai"@ != "ollama"@);
            assert("anthropic"@[0] != "gemini"@[0] && "anthropic"@[0] != "openai"@[0] && "anthropic"@[0] != "ollama"@[0]);
            assert("anthropic"@ != "gemini"@ && "anthropic"@ != "openai"@ && "anthropic"@ != "ollama"@);
        }
        if let Some(k) = given_value(&env.anthropic_api_key) {
            let mut p = self.provider_copy("anthropic");
            p.api_key = Some(k);
            p.enabled = true;
            self.llm.providers.insert(owned("anthropic"), p);
        }
        let gemini_key = match given_value(&env.google_api_key) {
            Some(k) => Some(k),
            None => given_value(&env.gemini_api_key),
        };
        if let Some(k) = gemini_key {
            let mut p = self.provider_copy("gemini");
            p.api_key = Some(k);
            p.enabled = true;
            self.llm.providers.insert(owned("gemini"), p);
        }
        if let Some(k) = given_value(&env.openai_api_key) {
            let mut p = self.provider_copy("openai");
            p.api_key = Some(k);
            p.enabled = true;
            self.llm.providers.insert(owned("openai"), p);
        }
        if let Some(u) = given_value(&env.ollama_base_url) {
            let mut p = self.provider_copy("ollama");
            p.base_url = Some(u);
            self.llm.providers.insert(owned("ollama"), p);
        }
        if let Some(d) = given_value(&env.default_provider) {
            self.llm.default_provider = d;
        }
    }
}

/// The first `}` of `b` at or after byte `k`.
pub open spec fn close_from(b: Seq<u8>, k: int) -> Option<int>
    decreases b.len() - k,
{
    if k < 0 || k >= b.len() {
        None
    } else if b[k] == 125u8 {
        Some(k)
    } else {
        close_from(b, k + 1)
    }
}

/// The end of the reference that starts at byte `j` of `b`, if one does:
/// `${`, at least one byte other than `}`, and the first `}` after them.
pub open spec fn ref_end(b: Seq<u8>, j: int) -> Option<int> {
    if 0 <= j && j + 1 < b.len() && b[j] == 36u8 && b[j + 1] == 123u8 {
        match close_from(b, j + 2) {
            Some(k) => if k > j + 2 { Some(k + 1) } else { None },
            None => None,
        }
    } else {
        None
    }
}

/// A `}` found is at or after where the search began, within `b`.
pub proof fn lemma_close_from(b: Seq<u8>, k: int)
    ensures
        close_from(b, k) matches Some(x) ==> k <= x < b.len() && b[x] == 125u8,
    decreases b.len() - k,
{
    if 0 <= k < b.len() && b[k] != 125u8 {
        lemma_close_from(b, k + 1);
    }
}

/// A reference starting at `j` ends after its name, within `b`.
pub proof fn lemma_ref_end(b: Seq<u8>, j: int)
    ensures
        ref_end(b, j) matches Some(e) ==> j + 3 < e <= b.len(),
{
    lemma_close_from(b, j + 2);
}

/// The references of `b` from byte `i` on: the leftmost one, then those
/// after its end, each as its byte range and the name between the braces.
pub open spec fn refs_from(b: Seq<u8>, i: int) -> Seq<(nat, nat, Seq<char>)>
    decreases b.len() - i,
{
    if i < 0 || i >= b.len() {
        seq![]
    } else {
        proof { lemma_ref_end(b, i); }
        match ref_end(b, i) {
            Some(e) => seq![(i as nat, e as nat, decode_utf8(b.subrange(i + 2, e - 1)))] + refs_from(b, e),
            None => refs_from(b, i + 1),
        }
    }
}

/// The `${NAME}` references of a text, as the regex `\$\{([^}]+)\}`
/// finds them: byte range and name, leftmost first and without overlap.
pub open spec fn env_references(s: Seq<char>) -> Seq<(nat, nat, Seq<char>)> {
    refs_from(encode_utf8(s), 0)
}

/// A `${NAME}` reference in a text.
pub struct EnvRef {
    pub start: usize,
    pub end: usize,
    pub name: String,
}

/// The values of references.
pub open spec fn ref_views(r: Seq<EnvRef>) -> Seq<(nat, nat, Seq<char>)> {
    r.map_values(|x: EnvRef| (x.start as nat, x.end as nat, x.name@))
}

/// The references lie in order within `b`, on character boundaries.
pub open spec fn refs_in_order(b: Seq<u8>, r: Seq<(nat, nat, Seq<char>)>) -> bool {
    &&& forall|k: int| 0 <= k < r.len() ==> #[trigger] r[k].0 <= r[k].1 <= b.len()
    &&& forall|k: int| 0 <= k < r.len() ==> is_char_boundary(b, #[trigger] r[k].0 as int)
    &&& forall|k: int| 0 <= k < r.len() ==> is_char_boundary(b, #[trigger] r[k].1 as int)
    &&& forall|k: int| 0 <= k < r.len() - 1 ==> #[trigger] r[k].1 <= r[k + 1].0
}

/// A byte just after an ASCII byte of valid UTF-8 starts a character (or
/// ends the text).
proof fn lemma_boundary_after_ascii(b: Seq<u8>, j: int)
    requires
        valid_utf8(b),
        0 < j <= b.len(),
        b[j - 1] <= 0x7f,
    ensures
        is_char_boundary(b, j),
    decreases b.len(),
{
    let l = length_of_first_scalar(b);
    if j - 1 < l {
        reveal_with_fuel(is_char_boundary, 2);
    } else {
        lemma_boundary_after_ascii(pop_first_scalar(b), j - l);
    }
}

/// The `}` that closes a reference whose name starts at byte `from`: the
/// first one at or after it, or the end of `b` where there is none.
fn close_brace(b: &[u8], from: usize) -> (k: usize)
    requires
        from <= b@.len(),
    ensures
        from <= k <= b@.len(),
        close_from(b@, from as int) == (if k < b@.len() { Some(k as int) } else { None::<int> }),
{
    let n = b.len();
    let mut k = from;
    while k < n && b[k] != 125u8
        invariant
            from <= k <= n == b@.len(),
            close_from(b@, from as int) == close_from(b@, k as int),
        decreases n - k,
    {
        k = k + 1;
    }
    k
}

/// Finds the `${NAME}` references of `s`: a `$` and `{`, at least one
/// byte other than `}`, and the first `}` after them; the search goes on
/// after each reference found.
fn find_env_refs(s: &str) -> (r: Vec<EnvRef>)
    ensures
        ref_views(r@) == env_references(s@),
        refs_in_order(encode_utf8(s@), ref_views(r@)),
{
    let bytes = s.as_bytes();
    let ghost b = encode_utf8(s@);
    let n = bytes.len();
    let mut out: Vec<EnvRef> = Vec::new();
    let mut i: usize = 0;
    proof {
        encode_utf8_valid_utf8(s@);
        assert(ref_views(out@) =~= Seq::<(nat, nat, Seq<char>)>::empty());
        assert(ref_views(out@) + refs_from(b, 0) =~= refs_from(b, 0));
    }
    while i < n
        invariant
            bytes@ == b,
            b == encode_utf8(s@),
            valid_utf8(b),
            n == b.len(),
            i <= n,
            ref_views(out@) + refs_from(b, i as int) == refs_from(b, 0),
            refs_in_order(b, ref_views(out@)),
            out@.len() > 0 ==> ref_views(out@).last().1 <= i,
        decreases n - i,
    {
        let ghost before = ref_views(out@);
        let mut found = false;
        if bytes[i] == 36u8 && i + 1 < n && bytes[i + 1] == 123u8 {
            let k = close_brace(bytes, i + 2);
            if k < n && k > i + 2 {
                proof {
                    lemma_close_from(b, i + 2);
                    vstd::utf8::is_char_boundary_iff_not_is_continuation_byte(b, i as int);
                    vstd::utf8::is_char_boundary_iff_not_is_continuation_byte(b, k as int);
                    lemma_boundary_after_ascii(b, i + 2);
                    lemma_boundary_after_ascii(b, k + 1);
                }
                let name = byte_slice(s, i + 2, k);
                out.push(EnvRef { start: i, end: k + 1, name });
                proof {
                    assert(ref_views(out@) =~= before.push((i as nat, (k + 1) as nat, name@)));
                    assert(refs_from(b, i as int) =~= seq![(i as nat, (k + 1) as nat, name@)] + refs_from(b, k + 1));
                    assert(ref_views(out@) + refs_from(b, k + 1) =~= before + refs_from(b, i as int));
                }
                i = k + 1;
                found = true;
            }
        }
        if !found {
            i = i + 1;
        }
    }
    out
}

/// The value of the variable `name` in `env` (the first entry of it).
pub open spec fn env_lookup(env: Seq<(String, String)>, name: Seq<char>) -> Option<Seq<char>>
    decreases env.len(),
{
    if env.len() == 0 {
        None
    } else if env[0].0@ == name {
        Some(env[0].1@)
    } else {
        env_lookup(env.drop_first(), name)
    }
}

/// The text `b` from byte `pos` on, with the references from the `k`th on
/// replaced by their variables' values (kept as `${NAME}` when unset).
pub open spec fn expanded_from(
    b: Seq<u8>,
    refs: Seq<(nat, nat, Seq<char>)>,
    env: Seq<(String, String)>,
    k: nat,
    pos: nat,
) -> Seq<char>
    decreases refs.len() - k,
{
    if k >= refs.len() {
        decode_utf8(b.subrange(pos as int, b.len() as int))
    } else {
        decode_utf8(b.subrange(pos as int, refs[k as int].0 as int))
            + match env_lookup(env, refs[k as int].2) {
                Some(v) => v,
                None => "${"@ + refs[k as int].2 + "}"@,
            }
            + expanded_from(b, refs, env, k + 1, refs[k as int].1)
    }
}

/// The value of `name` in `env`.
fn lookup_env(env: &Vec<(String, String)>, name: &str) -> (r: Option<String>)
    ensures
        match r {
            Some(v) => env_lookup(env@, name@) == Some(v@),
            None => env_lookup(env@, name@) is None,
        },
{
    let mut i: usize = 0;
    assert(env@.skip(0) =~= env@);
    while i < env.len()
        invariant
            i <= env@.len(),
            env_lookup(env@, name@) == env_lookup(env@.skip(i as int), name@),
        decreases env@.len() - i,
    {
        assert(env@.skip(i as int).drop_first() =~= env@.skip(i + 1));
        if same_text(env[i].0.as_str(), name) {
            return Some(owned(env[i].1.as_str()));
        }
        i = i + 1;
    }
    None
}

/// `s` with each `${NAME}` replaced by the value of `NAME` in `env`, or
/// kept when `NAME` is not set.
pub fn expand_string(s: &str, env: &Vec<(String, String)>) -> (r: String)
    ensures
        r@ == expanded_from(encode_utf8(s@), env_references(s@), env@, 0, 0),
{
    let refs = find_env_refs(s);
    let ghost b = encode_utf8(s@);
    let ghost rv = ref_views(refs@);
    let n = s.as_bytes().len();
    let mut out = String::new();
    let mut pos: usize = 0;
    let mut k: usize = 0;
    proof { vstd::utf8::encode_utf8_valid_utf8(s@); vstd::utf8::is_char_boundary_start_end_of_seq(b); }
    while k < refs.len()
        invariant
            k <= refs@.len() == rv.len(),
            rv == ref_views(refs@),
            rv == env_references(s@),
            b == encode_utf8(s@),
            n == b.len(),
            refs_in_order(b, rv),
            pos <= n,
            is_char_boundary(b, pos as int),
            k < rv.len() ==> pos <= rv[k as int].0,
            out@ + expanded_from(b, rv, env@, k as nat, pos as nat) == expanded_from(b, rv, env@, 0, 0),
        decreases refs@.len() - k,
    {
        let r = &refs[k];
        assert(rv[k as int] == (r.start as nat, r.end as nat, r.name@));
        let piece = byte_slice(s, pos, r.start);
        let mut next = concat(out.as_str(), piece.as_str());
        match lookup_env(env, r.name.as_str()) {
            Some(v) => {
                next = concat(next.as_str(), v.as_str());
            }
            None => {
                let a = concat(next.as_str(), "${");
                let b2 = concat(a.as_str(), r.name.as_str());
                next = concat(b2.as_str(), "}");
            }
        }
        proof {
            assert(next@ + expanded_from(b, rv, env@, (k + 1) as nat, r.end as nat)
                =~= out@ + expanded_from(b, rv, env@, k as nat, pos as nat));
        }
        out = next;
        pos = r.end;
        k = k + 1;
    }
    let rest = byte_slice(s, pos, n);
    assert(b.subrange(pos as int, b.len() as int) == b.subrange(pos as int, n as int));
    concat(out.as_str(), rest.as_str())
}

/// The optional text expanded.
pub open spec fn expanded_opt(v: Option<String>, env: Seq<(String, String)>) -> Option<Seq<char>> {
    match v {
        Some(s) => Some(expanded_from(encode_utf8(s@), env_references(s@), env, 0, 0)),
        None => None,
    }
}

fn expand_opt(v: &Option<String>, env: &Vec<(String, String)>) -> (r: Option<String>)
    ensures
        match r { Some(s) => expanded_opt(*v, env@) == Some(s@), None => v is None },
{
    match v {
        Some(s) => Some(expand_string(s.as_str(), env)),
        None => None,
    }
}

impl ProviderMap {
    /// Expand the `${NAME}` references of every API key and base URL.
    pub fn expand_env_vars(&mut self, env: &Vec<(String, String)>)
        requires
            old(self).wf(),
        ensures
            final(self).wf(),
            final(self).entries_view().len() == old(self).entries_view().len(),
            forall|i: int| 0 <= i < old(self).entries_view().len() ==> {
                let (a, b) = (old(self).entries_view()[i], #[trigger] final(self).entries_view()[i]);
                &&& b.0@ == a.0@
                &&& b.1.enabled == a.1.enabled
                &&& same_opt(b.1.default_model, a.1.default_model)
                &&& match b.1.api_key { Some(k) => expanded_opt(a.1.api_key, env@) == Some(k@), None => a.1.api_key is None }
                &&& match b.1.base_url { Some(u) => expanded_opt(a.1.base_url, env@) == Some(u@), None => a.1.base_url is None }
            },
    {
        let ghost es = self.entries@;
        let mut i: usize = 0;
        while i < self.entries.len()
            invariant
                i <= self.entries@.len() == es.len(),
                es == old(self).entries@,
                forall|k: int| i <= k < es.len() ==> #[trigger] self.entries@[k] == es[k],
                forall|k: int| 0 <= k < i ==> {
                    let (a, b) = (es[k], #[trigger] self.entries@[k]);
                    &&& b.0@ == a.0@
                    &&& b.1.enabled == a.1.enabled
                    &&& same_opt(b.1.default_model, a.1.default_model)
                    &&& match b.1.api_key { Some(x) => expanded_opt(a.1.api_key, env@) == Some(x@), None => a.1.api_key is None }
                    &&& match b.1.base_url { Some(u) => expanded_opt(a.1.base_url, env@) == Some(u@), None => a.1.base_url is None }
                },
            decreases es.len() - i,
        {
            let e = &self.entries[i];
            let name = owned(e.0.as_str());
            let c = ProviderConfig {
                enabled: e.1.enabled,
                api_key: expand_opt(&e.1.api_key, env),
                base_url: expand_opt(&e.1.base_url, env),
                default_model: copy_text(&e.1.default_model),
            };
            self.entries.set(i, (name, c));
            i = i + 1;
        }
        proof {
            assert forall|a: int, b: int| 0 <= a < b < self.entries@.len() implies
                #[trigger] self.entries@[a].0@ != #[trigger] self.entries@[b].0@ by {
                assert(es[a].0@ != es[b].0@);
            }
        }
    }
}


/// A text without `${NAME}` references expands to itself.
pub proof fn law_expand_without_references(s: Seq<char>, env: Seq<(String, String)>)
    requires
        env_references(s).len() == 0,
    ensures
        expanded_from(encode_utf8(s), env_references(s), env, 0, 0) == s,
{
    vstd::utf8::encode_utf8_decode_utf8(s);
    assert(encode_utf8(s).subrange(0, encode_utf8(s).len() as int) =~= encode_utf8(s));
}

} // verus!
