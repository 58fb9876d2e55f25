//! The registered model providers: which one is active, which ones stand
//! in when it cannot answer, and the summaries shown to the user.

use vstd::prelude::*;
use crate::config::AxiomConfig;
use crate::llm::error::LlmError;
use crate::llm::provider::{ProviderCapabilities, ProviderStatus};
use crate::text::{concat, owned, same_text};

verus! {

/// Provider information for display.
#[derive(Debug, Clone)]
pub struct ProviderInfo {
    pub id: String,
    pub name: String,
    pub model: String,
    pub status: ProviderStatus,
}

impl ProviderInfo {
    /// `name (model)`.
    pub fn display(&self) -> (s: String)
        ensures
            s@ == self.name@ + " ("@ + self.model@ + ")"@,
    {
        let s = concat(self.name.as_str(), " (");
        let s = concat(s.as_str(), self.model.as_str());
        concat(s.as_str(), ")")
    }

    /// A one-character indicator of the status.
    pub fn status_indicator(&self) -> (s: &str)
        ensures
            s@ == match self.status {
                ProviderStatus::Ready => "●"@,
                ProviderStatus::Busy => "◐"@,
                ProviderStatus::Unavailable(_) => "○"@,
                ProviderStatus::RateLimited => "◌"@,
            },
    {
        match &self.status {
            ProviderStatus::Ready => "●",
            ProviderStatus::Busy => "◐",
            ProviderStatus::Unavailable(_) => "○",
            ProviderStatus::RateLimited => "◌",
        }
    }
}

/// A model provider, as the application implements it.
pub trait LlmProvider {
    /// The provider's identifier (such as `ollama`).
    fn id(&self) -> &str;

    /// The provider's display name.
    fn name(&self) -> &str;

    /// The model in use.
    fn model(&self) -> String;

    /// Use another model.
    fn set_model(&mut self, model: &str) -> Result<(), LlmError>;

    /// The models the provider offers.
    fn list_models(&self) -> Result<Vec<String>, LlmError>;

    /// What the provider can do.
    fn capabilities(&self) -> ProviderCapabilities;

    /// Whether the provider can take a request now.
    fn status(&self) -> ProviderStatus;

    /// The provider is ready.
    fn is_available(&self) -> bool {
        self.status().is_ready()
    }
}

/// The mathematical value of a registry: the identifiers and the providers
/// registered under them (in registration order), the identifier of the
/// active provider, and the fallback chain.
pub struct RegistryView<P> {
    pub ids: Seq<Seq<char>>,
    pub providers: Seq<P>,
    pub active: Seq<char>,
    pub chain: Seq<Seq<char>>,
}

/// The values of a list of strings.
pub open spec fn names_view(v: Seq<String>) -> Seq<Seq<char>> {
    v.map_values(|s: String| s@)
}

/// The registry after registering `p` under `id`: it replaces the provider
/// registered under `id`, or is added at the end.
pub open spec fn registered<P>(v: RegistryView<P>, id: Seq<char>, p: P) -> RegistryView<P> {
    if v.ids.contains(id) {
        RegistryView { providers: v.providers.update(v.ids.index_of(id), p), ..v }
    } else {
        RegistryView { ids: v.ids.push(id), providers: v.providers.push(p), ..v }
    }
}

/// Each provider has its identifier, and no identifier occurs twice.
pub open spec fn registry_wf<P>(v: RegistryView<P>) -> bool {
    v.ids.len() == v.providers.len() && v.ids.no_duplicates()
}

/// The provider registered under `id`, if any.
pub open spec fn provider_under<P>(v: RegistryView<P>, id: Seq<char>) -> Option<P> {
    if v.ids.contains(id) { Some(v.providers[v.ids.index_of(id)]) } else { None }
}

/// Provider `i` was reported ready (a missing report counts as not ready).
pub open spec fn ready_at(ready: Seq<bool>, i: int) -> bool {
    0 <= i < ready.len() && ready[i]
}

/// The first provider of the fallback chain, from position `k` on, that is
/// registered and ready.
pub open spec fn chain_pick(ids: Seq<Seq<char>>, ready: Seq<bool>, chain: Seq<Seq<char>>, k: int) -> Option<int>
    decreases chain.len() - k,
{
    if k < 0 || k >= chain.len() {
        None
    } else if ids.contains(chain[k]) && ready_at(ready, ids.index_of(chain[k])) {
        Some(ids.index_of(chain[k]))
    } else {
        chain_pick(ids, ready, chain, k + 1)
    }
}

/// The provider used for a request to `id`, given which providers are
/// ready: `id`'s own when it is registered and ready, else the first
/// registered and ready one of the fallback chain, else none.
pub open spec fn fallback_pick<P>(v: RegistryView<P>, ready: Seq<bool>, id: Seq<char>) -> Option<int> {
    if v.ids.contains(id) && ready_at(ready, v.ids.index_of(id)) {
        Some(v.ids.index_of(id))
    } else {
        chain_pick(v.ids, ready, v.chain, 0)
    }
}

/// The providers reported ready, in order.
pub open spec fn ready_ones<P>(ps: Seq<P>, ready: Seq<bool>) -> Seq<P>
    decreases ps.len(),
{
    if ps.len() == 0 {
        seq![]
    } else {
        let rest = ready_ones(ps.drop_last(), ready);
        if ready_at(ready, ps.len() - 1) { rest.push(ps.last()) } else { rest }
    }
}

/// The pairs (provider, model) of the model lists of the providers, in
/// order (a provider whose list could not be had counts as listing none).
pub open spec fn models_of(ids: Seq<Seq<char>>, lists: Seq<Seq<Seq<char>>>) -> Seq<(Seq<char>, Seq<char>)>
    decreases ids.len(),
{
    if ids.len() == 0 || lists.len() < ids.len() {
        seq![]
    } else {
        models_of(ids.drop_last(), lists.take(ids.len() - 1))
            + lists[ids.len() - 1].map_values(|m: Seq<char>| (ids.last(), m))
    }
}

/// The names of the enabled providers of the configuration, in order.
pub open spec fn enabled_names(es: Seq<(String, crate::config::ProviderConfig)>) -> Seq<Seq<char>>
    decreases es.len(),
{
    if es.len() == 0 {
        seq![]
    } else {
        let rest = enabled_names(es.drop_last());
        if es.last().1.enabled { rest.push(es.last().0@) } else { rest }
    }
}

/// Registry of the model providers.
pub struct ProviderRegistry<P: LlmProvider> {
    ids: Vec<String>,
    providers: Vec<P>,
    active_provider: String,
    fallback_chain: Vec<String>,
}

impl<P: LlmProvider> View for ProviderRegistry<P> {
    type V = RegistryView<P>;

    closed spec fn view(&self) -> RegistryView<P> {
        RegistryView {
            ids: names_view(self.ids@),
            providers: self.providers@,
            active: self.active_provider@,
            chain: names_view(self.fallback_chain@),
        }
    }
}

impl<P: LlmProvider> ProviderRegistry<P> {
    /// Each provider has its identifier, and no identifier occurs twice.
    pub closed spec fn wf(&self) -> bool {
        registry_wf(self@)
    }

    /// An empty registry, with no active provider.
    pub fn new() -> (r: Self)
        ensures
            r.wf(),
            r@.ids == Seq::<Seq<char>>::empty(),
            r@.providers == Seq::<P>::empty(),
            r@.active == Seq::<char>::empty(),
            r@.chain == Seq::<Seq<char>>::empty(),
    {
        let r = ProviderRegistry {
            ids: Vec::new(),
            providers: Vec::new(),
            active_provider: String::new(),
            fallback_chain: Vec::new(),
        };
        assert(names_view(r.ids@) =~= Seq::<Seq<char>>::empty());
        assert(names_view(r.fallback_chain@) =~= Seq::<Seq<char>>::empty());
        r
    }

    /// An empty registry whose active provider is the configured default and
    /// whose fallback chain is the enabled providers, in configuration order.
    pub fn from_config(config: &AxiomConfig) -> (r: Self)
        ensures
            r.wf(),
            r@.ids == Seq::<Seq<char>>::empty(),
            r@.providers == Seq::<P>::empty(),
            r@.active == config.llm.default_provider@,
            r@.chain == enabled_names(config.llm.providers.entries_view()),
    {
        let es = config.llm.providers.entries();
        let mut chain: Vec<String> = Vec::new();
        let mut i: usize = 0;
        while i < es.len()
            invariant
                i <= es@.len(),
                es@ == config.llm.providers.entries_view(),
                names_view(chain@) == enabled_names(es@.take(i as int)),
            decreases es@.len() - i,
        {
            assert(es@.take(i + 1).drop_last() =~= es@.take(i as int));
            if es[i].1.enabled {
                let ghost before = chain@;
                chain.push(owned(es[i].0.as_str()));
                assert(names_view(chain@) =~= names_view(before).push(es@[i as int].0@));
            }
            i = i + 1;
        }
        assert(es@.take(es@.len() as int) =~= es@);
        let r = ProviderRegistry {
            ids: Vec::new(),
            providers: Vec::new(),
            active_provider: owned(config.llm.default_provider.as_str()),
            fallback_chain: chain,
        };
        assert(names_view(r.ids@) =~= Seq::<Seq<char>>::empty());
        r
    }

    /// The position of `id` among the registered identifiers.
    fn position(&self, id: &str) -> (r: Option<usize>)
        requires
            self.wf(),
        ensures
            match r {
                Some(i) => self@.ids.contains(id@) && i as int == self@.ids.index_of(id@),
                None => !self@.ids.contains(id@),
            },
    {
        let ghost ids = names_view(self.ids@);
        let mut i: usize = 0;
        while i < self.ids.len()
            invariant
                self.wf(),
                i <= self.ids@.len(),
                ids == names_view(self.ids@),
                forall|k: int| 0 <= k < i ==> ids[k] != id@,
            decreases self.ids@.len() - i,
        {
            if same_text(self.ids[i].as_str(), id) {
                proof {
                    assert(ids[i as int] == id@);
                    assert(ids.contains(id@));
                    lemma_index_of_unique(ids, id@, i as int);
                }
                return Some(i);
            }
            i = i + 1;
        }
        proof {
            if ids.contains(id@) {
                let k = choose|k: int| 0 <= k < ids.len() && ids[k] == id@;
                assert(ids[k] != id@);
            }
        }
        None
    }

    /// Register `provider` under `id`, replacing the provider registered
    /// under it.
    pub fn register_as(&mut self, id: String, provider: P)
        requires
            old(self).wf(),
        ensures
            final(self).wf(),
            final(self)@ == registered(old(self)@, id@, provider),
    {
        match self.position(id.as_str()) {
            Some(i) => {
                self.providers.set(i, provider);
                assert(self@.providers =~= old(self)@.providers.update(i as int, provider));
            }
            None => {
                let ghost before = names_view(self.ids@);
                let ghost nid = id@;
                self.ids.push(id);
                self.providers.push(provider);
                proof {
                    assert(names_view(self.ids@) =~= before.push(nid));
                    assert forall|a: int, b: int| 0 <= a < b < names_view(self.ids@).len()
                        implies names_view(self.ids@)[a] != names_view(self.ids@)[b] by {
                        if b == before.len() {
                            assert(before[a] == names_view(self.ids@)[a]);
                        } else {
                            assert(before[a] != before[b]);
                        }
                    }
                }
            }
        }
    }

    /// Register `provider` under the identifier it reports, replacing the
    /// provider registered under it.
    pub fn register(&mut self, provider: P)
        requires
            old(self).wf(),
        ensures
            final(self).wf(),
            exists|id: Seq<char>| final(self)@ == #[trigger] registered(old(self)@, id, provider),
    {
        let id = owned(provider.id());
        let ghost k = id@;
        self.register_as(id, provider);
        assert(self@ == registered(old(self)@, k, provider));
    }

    /// The provider registered under `id`.
    pub fn get(&self, id: &str) -> (r: Option<&P>)
        requires
            self.wf(),
        ensures
            match r {
                Some(p) => provider_under(self@, id@) == Some(*p),
                None => provider_under(self@, id@) is None,
            },
    {
        match self.position(id) {
            Some(i) => Some(&self.providers[i]),
            None => None,
        }
    }

    /// The active provider, when it is registered.
    pub fn active(&self) -> (r: Option<&P>)
        requires
            self.wf(),
        ensures
            match r {
                Some(p) => provider_under(self@, self@.active) == Some(*p),
                None => provider_under(self@, self@.active) is None,
            },
    {
        self.get(self.active_provider.as_str())
    }

    /// Make the provider registered under `id` the active one; an error,
    /// and no change, when none is.
    pub fn set_active(&mut self, id: &str) -> (r: Result<(), LlmError>)
        requires
            old(self).wf(),
        ensures
            final(self).wf(),
            r is Ok <==> old(self)@.ids.contains(id@),
            r is Ok ==> final(self)@ == (RegistryView { active: id@, ..old(self)@ }),
            r is Err ==> final(self)@ == old(self)@,
            r matches Err(e) ==> (e matches LlmError::ProviderUnavailable(m)
                && m@ == "Provider '"@ + id@ + "' not registered"@),
    {
        if self.position(id).is_none() {
            let m = concat("Provider '", id);
            return Err(LlmError::ProviderUnavailable(concat(m.as_str(), "' not registered")));
        }
        self.active_provider = owned(id);
        Ok(())
    }

    /// The identifier of the active provider.
    pub fn active_id(&self) -> (r: String)
        ensures
            r@ == self@.active,
    {
        owned(self.active_provider.as_str())
    }

    /// Whether each provider, in order, reports itself ready.
    fn ready_flags(&self) -> (r: Vec<bool>)
        requires
            self.wf(),
        ensures
            r@.len() == self@.providers.len(),
    {
        let mut r: Vec<bool> = Vec::new();
        let mut i: usize = 0;
        while i < self.providers.len()
            invariant
                i <= self.providers@.len(),
                r@.len() == i,
            decreases self.providers@.len() - i,
        {
            let s = self.providers[i].status();
            r.push(s.is_ready());
            i = i + 1;
        }
        r
    }

    /// The position of the provider used for a request to `id`, given
    /// which providers (by position) are ready.
    pub fn pick_with_fallback(&self, id: &str, ready: &Vec<bool>) -> (r: Option<usize>)
        requires
            self.wf(),
        ensures
            match r {
                Some(i) => fallback_pick(self@, ready@, id@) == Some(i as int),
                None => fallback_pick(self@, ready@, id@) is None,
            },
    {
        if let Some(i) = self.position(id) {
            if i < ready.len() && ready[i] {
                return Some(i);
            }
        }
        let ghost v = self@;
        let mut k: usize = 0;
        while k < self.fallback_chain.len()
            invariant
                self.wf(),
                v == self@,
                k <= v.chain.len(),
                !(v.ids.contains(id@) && ready_at(ready@, v.ids.index_of(id@))),
                chain_pick(v.ids, ready@, v.chain, 0) == chain_pick(v.ids, ready@, v.chain, k as int),
            decreases v.chain.len() - k,
        {
            assert(v.chain[k as int] == self.fallback_chain@[k as int]@);
            if let Some(i) = self.position(self.fallback_chain[k].as_str()) {
                if i < ready.len() && ready[i] {
                    return Some(i);
                }
            }
            k = k + 1;
        }
        None
    }

    /// A provider for a request to `id`: `id`'s own when it is registered
    /// and ready, else the first registered and ready one of the fallback
    /// chain. Each provider is asked for its status.
    pub fn get_with_fallback(&self, id: &str) -> (r: Option<&P>)
        requires
            self.wf(),
        ensures
            exists|ready: Seq<bool>| ready.len() == self@.providers.len()
                && match #[trigger] fallback_pick(self@, ready, id@) {
                    Some(i) => r == Some(&self@.providers[i]),
                    None => r is None,
                },
    {
        let ready = self.ready_flags();
        let r = match self.pick_with_fallback(id, &ready) {
            Some(i) => {
                proof { lemma_pick_in_range(self@, ready@, id@); }
                Some(&self.providers[i])
            }
            None => None,
        };
        assert(ready@.len() == self@.providers.len() && match fallback_pick(self@, ready@, id@) {
            Some(i) => r == Some(&self@.providers[i]),
            None => r is None,
        });
        r
    }

    /// The registered identifiers, in registration order.
    pub fn provider_ids(&self) -> (r: Vec<String>)
        ensures
            names_view(r@) == self@.ids,
    {
        let mut r: Vec<String> = Vec::new();
        let mut i: usize = 0;
        while i < self.ids.len()
            invariant
                i <= self.ids@.len(),
                names_view(r@) == names_view(self.ids@).take(i as int),
            decreases self.ids@.len() - i,
        {
            let ghost before = r@;
            r.push(owned(self.ids[i].as_str()));
            assert(names_view(r@) =~= names_view(before).push(self.ids@[i as int]@));
            assert(names_view(self.ids@).take(i + 1) =~= names_view(self.ids@).take(i as int).push(self.ids@[i as int]@));
            i = i + 1;
        }
        assert(names_view(self.ids@).take(self.ids@.len() as int) =~= names_view(self.ids@));
        r
    }

    /// The providers reported ready by `ready` (by position), in order.
    pub fn available_with(&self, ready: &Vec<bool>) -> (r: Vec<&P>)
        ensures
            r@.map_values(|p: &P| *p) == ready_ones(self@.providers, ready@),
    {
        let mut r: Vec<&P> = Vec::new();
        let mut i: usize = 0;
        while i < self.providers.len()
            invariant
                i <= self.providers@.len(),
                r@.map_values(|p: &P| *p) == ready_ones(self.providers@.take(i as int), ready@),
            decreases self.providers@.len() - i,
        {
            assert(self.providers@.take(i + 1).drop_last() =~= self.providers@.take(i as int));
            if i < ready.len() && ready[i] {
                let ghost before = r@;
                r.push(&self.providers[i]);
                assert(r@.map_values(|p: &P| *p) =~= before.map_values(|p: &P| *p).push(self.providers@[i as int]));
            }
            i = i + 1;
        }
        assert(self.providers@.take(self.providers@.len() as int) =~= self.providers@);
        r
    }

    /// The providers that report themselves ready, in order.
    pub fn available_providers(&self) -> (r: Vec<&P>)
        requires
            self.wf(),
        ensures
            exists|ready: Seq<bool>| ready.len() == self@.providers.len()
                && r@.map_values(|p: &P| *p) == #[trigger] ready_ones(self@.providers, ready),
    {
        let ready = self.ready_flags();
        let r = self.available_with(&ready);
        assert(ready@.len() == self@.providers.len() && r@.map_values(|p: &P| *p) == ready_ones(self@.providers, ready@));
        r
    }

    /// A summary of each provider, in order, under its registered
    /// identifier; name, model and status as the provider reports them.
    pub fn provider_info(&self) -> (r: Vec<ProviderInfo>)
        requires
            self.wf(),
        ensures
            r@.len() == self@.ids.len(),
            forall|i: int| 0 <= i < r@.len() ==> (#[trigger] r@[i]).id@ == self@.ids[i],
    {
        let mut r: Vec<ProviderInfo> = Vec::new();
        let mut i: usize = 0;
        while i < self.providers.len()
            invariant
                self.wf(),
                i <= self.providers@.len(),
                r@.len() == i,
                forall|k: int| 0 <= k < i ==> (#[trigger] r@[k]).id@ == names_view(self.ids@)[k],
            decreases self.providers@.len() - i,
        {
            let p = &self.providers[i];
            let info = ProviderInfo {
                id: owned(self.ids[i].as_str()),
                name: owned(p.name()),
                model: p.model(),
                status: p.status(),
            };
            r.push(info);
            i = i + 1;
        }
        r
    }

    /// Every model of every provider, with the provider's identifier; a
    /// provider whose list cannot be had lists none.
    pub fn all_models(&self) -> (r: Vec<(String, String)>)
        requires
            self.wf(),
        ensures
            exists|lists: Seq<Seq<Seq<char>>>| lists.len() == self@.ids.len()
                && r@.map_values(|p: (String, String)| (p.0@, p.1@)) == #[trigger] models_of(self@.ids, lists),
    {
        let ghost ids = names_view(self.ids@);
        let ghost mut lists: Seq<Seq<Seq<char>>> = seq![];
        let mut r: Vec<(String, String)> = Vec::new();
        let mut i: usize = 0;
        while i < self.providers.len()
            invariant
                self.wf(),
                ids == names_view(self.ids@),
                i <= self.providers@.len(),
                lists.len() == i,
                r@.map_values(|p: (String, String)| (p.0@, p.1@)) == models_of(ids.take(i as int), lists),
            decreases self.providers@.len() - i,
        {
            let got = self.providers[i].list_models();
            let ghost mut got_view: Seq<Seq<char>> = seq![];
            match got {
                Ok(ms) => {
                    let mut j: usize = 0;
                    while j < ms.len()
                        invariant
                            self.wf(),
                            ids == names_view(self.ids@),
                            i < self.providers@.len(),
                            lists.len() == i,
                            j <= ms@.len(),
                            got_view == names_view(ms@).take(j as int),
                            r@.map_values(|p: (String, String)| (p.0@, p.1@)) == models_of(ids.take(i as int), lists)
                                + got_view.map_values(|m: Seq<char>| (ids[i as int], m)),
                        decreases ms@.len() - j,
                    {
                        let ghost before = r@.map_values(|p: (String, String)| (p.0@, p.1@));
                        let pair = (owned(self.ids[i].as_str()), owned(ms[j].as_str()));
                        r.push(pair);
                        proof {
                            assert(r@.map_values(|p: (String, String)| (p.0@, p.1@)) =~= before.push((ids[i as int], ms@[j as int]@)));
                            let nv = names_view(ms@).take(j + 1);
                            assert(nv =~= got_view.push(ms@[j as int]@));
                            assert(nv.map_values(|m: Seq<char>| (ids[i as int], m))
                                =~= got_view.map_values(|m: Seq<char>| (ids[i as int], m)).push((ids[i as int], ms@[j as int]@)));
                            got_view = nv;
                        }
                        j = j + 1;
                    }
                }
                Err(_) => {}
            }
            proof {
                let nl = lists.push(got_view);
                let t = ids.take(i + 1);
                assert(t.drop_last() =~= ids.take(i as int));
                assert(nl.take(i as int) =~= lists);
                assert(t.last() == ids[i as int]);
                assert(models_of(t, nl) == models_of(ids.take(i as int), lists)
                    + got_view.map_values(|m: Seq<char>| (ids[i as int], m)));
                lists = nl;
            }
            i = i + 1;
        }
        assert(ids.take(ids.len() as int) =~= ids);
        assert(lists.len() == self@.ids.len()
            && r@.map_values(|p: (String, String)| (p.0@, p.1@)) == models_of(self@.ids, lists));
        r
    }

    /// Set the model of the provider registered under `provider_id`; an
    /// error, and no change, when none is. Other providers are unchanged.
    pub fn set_model(&mut self, provider_id: &str, model: &str) -> (r: Result<(), LlmError>)
        requires
            old(self).wf(),
        ensures
            final(self).wf(),
            final(self)@.ids == old(self)@.ids,
            final(self)@.active == old(self)@.active,
            final(self)@.chain == old(self)@.chain,
            final(self)@.providers.len() == old(self)@.providers.len(),
            forall|j: int| 0 <= j < old(self)@.ids.len() && old(self)@.ids[j] != provider_id@
                ==> #[trigger] final(self)@.providers[j] == old(self)@.providers[j],
            !old(self)@.ids.contains(provider_id@) ==> final(self)@ == old(self)@
                && (r matches Err(LlmError::ProviderUnavailable(m)) && m@ == provider_id@),
    {
        match self.position(provider_id) {
            None => Err(LlmError::ProviderUnavailable(owned(provider_id))),
            Some(i) => {
                let ghost old_ps = self.providers@;
                let mut p = self.providers.remove(i);
                let r = p.set_model(model);
                self.providers.insert(i, p);
                proof {
                    assert forall|j: int| 0 <= j < old_ps.len() && names_view(self.ids@)[j] != provider_id@
                        implies #[trigger] self.providers@[j] == old_ps[j] by {
                        if j < i {
                        } else if j > i {
                        } else {
                            assert(names_view(self.ids@)[j] == provider_id@);
                        }
                    }
                }
                r
            }
        }
    }
}

impl<P: LlmProvider> Default for ProviderRegistry<P> {
    /// An empty registry.
    fn default() -> (r: Self)
        ensures
            r.wf(),
            r@.ids == Seq::<Seq<char>>::empty(),
            r@.active == Seq::<char>::empty(),
    {
        Self::new()
    }
}

/// Registering a provider under an identifier and then asking for that
/// identifier gives the provider back; every other identifier still gives
/// what it gave before.
pub proof fn law_register_then_get<P>(v: RegistryView<P>, id: Seq<char>, p: P, other: Seq<char>)
    requires
        registry_wf(v),
    ensures
        registry_wf(registered(v, id, p)),
        provider_under(registered(v, id, p), id) == Some(p),
        other != id ==> provider_under(registered(v, id, p), other) == provider_under(v, other),
{
    let w = registered(v, id, p);
    if v.ids.contains(id) {
        let k = v.ids.index_of(id);
        lemma_index_of_unique(v.ids, id, k);
        if other != id && v.ids.contains(other) {
            let j = v.ids.index_of(other);
            lemma_index_of_unique(v.ids, other, j);
            assert(j != k);
        }
    } else {
        let n = v.ids.len() as int;
        assert forall|a: int, b: int| 0 <= a < b < w.ids.len() implies w.ids[a] != w.ids[b] by {
            if b == n {
                assert(v.ids[a] == w.ids[a]);
            } else {
                assert(v.ids[a] != v.ids[b]);
            }
        }
        assert(w.ids[n] == id);
        lemma_index_of_unique(w.ids, id, n);
        if other != id {
            if v.ids.contains(other) {
                let j = v.ids.index_of(other);
                lemma_index_of_unique(v.ids, other, j);
                assert(w.ids[j] == other);
                lemma_index_of_unique(w.ids, other, j);
            } else {
                if w.ids.contains(other) {
                    let j = w.ids.index_of(other);
                    if j < n {
                        assert(v.ids[j] == other);
                    }
                }
            }
        }
    }
}

/// In a list without duplicates, the position of an element is its first
/// position.
proof fn lemma_index_of_unique(ids: Seq<Seq<char>>, id: Seq<char>, i: int)
    requires
        ids.no_duplicates(),
        0 <= i < ids.len(),
        ids[i] == id,
    ensures
        ids.index_of(id) == i,
{
    let k = ids.index_of(id);
    if k != i {
        assert(ids[k] == ids[i]);
    }
}

/// The chosen provider is a registered one.
proof fn lemma_pick_in_range<P>(v: RegistryView<P>, ready: Seq<bool>, id: Seq<char>)
    requires
        v.ids.len() == v.providers.len(),
    ensures
        fallback_pick(v, ready, id) matches Some(i) ==> 0 <= i < v.providers.len(),
{
    lemma_chain_pick_in_range(v.ids, ready, v.chain, 0);
}

proof fn lemma_chain_pick_in_range(ids: Seq<Seq<char>>, ready: Seq<bool>, chain: Seq<Seq<char>>, k: int)
    ensures
        chain_pick(ids, ready, chain, k) matches Some(i) ==> 0 <= i < ids.len(),
    decreases chain.len() - k,
{
    if 0 <= k < chain.len() {
        lemma_chain_pick_in_range(ids, ready, chain, k + 1);
    }
}

} // verus!
