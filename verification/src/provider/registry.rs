//! The provider registry: which provider serves each API protocol.
//!
//! At most one provider is registered per protocol; registering again for a
//! protocol replaces the earlier one. The registry is viewed as a map from
//! protocol to provider.
use vstd::prelude::*;
use crate::provider::model::ApiProtocol;
use crate::provider::mock::MockProvider;

verus! {

/// A provider that can be registered for a protocol.
pub enum ProviderKind {
    Anthropic,
    OpenAiCompat,
    OpenAiResponses,
    Google,
    GoogleVertex,
    Bedrock,
    AzureOpenAi,
    /// A scripted provider that replays canned responses.
    Mock(MockProvider),
}

/// The registered providers, keyed by protocol.
pub struct ProviderRegistry {
    entries: Vec<(ApiProtocol, ProviderKind)>,
}

/// The map that a list of entries denotes: a later entry for a protocol
/// overrides an earlier one.
pub open spec fn entries_map(es: Seq<(ApiProtocol, ProviderKind)>) -> Map<ApiProtocol, ProviderKind>
    decreases es.len(),
{
    if es.len() == 0 {
        Map::empty()
    } else {
        entries_map(es.drop_last()).insert(es.last().0, es.last().1)
    }
}

/// No protocol occurs twice among the entries.
pub open spec fn keys_distinct(es: Seq<(ApiProtocol, ProviderKind)>) -> bool {
    forall|i: int, j: int| 0 <= i < j < es.len() ==> #[trigger] es[i].0 != #[trigger] es[j].0
}

/// With distinct keys, the map holds exactly the entries' protocols, each with its entry's provider.
proof fn lemma_entries_map(es: Seq<(ApiProtocol, ProviderKind)>)
    requires
        keys_distinct(es),
    ensures
        forall|i: int| 0 <= i < es.len() ==> #[trigger] entries_map(es).contains_key(es[i].0)
            && entries_map(es)[es[i].0] == es[i].1,
        forall|p: ApiProtocol| #[trigger] entries_map(es).contains_key(p)
            ==> exists|i: int| 0 <= i < es.len() && es[i].0 == p,
    decreases es.len(),
{
    if es.len() > 0 {
        let init = es.drop_last();
        assert(keys_distinct(init));
        lemma_entries_map(init);
        let m = entries_map(init);
        assert(entries_map(es) == m.insert(es.last().0, es.last().1));
        assert forall|p: ApiProtocol| #[trigger] entries_map(es).contains_key(p)
            implies exists|i: int| 0 <= i < es.len() && es[i].0 == p by {
            if p != es.last().0 {
                assert(m.contains_key(p));
                let i = choose|i: int| 0 <= i < init.len() && init[i].0 == p;
                assert(init[i] == es[i]);
                assert(es[i].0 == p);
            } else {
                assert(es[es.len() - 1].0 == p);
            }
        }
        assert forall|i: int| 0 <= i < es.len() implies #[trigger] entries_map(es).contains_key(es[i].0)
            && entries_map(es)[es[i].0] == es[i].1 by {
            if i < es.len() - 1 {
                assert(init[i] == es[i]);
                assert(m.contains_key(init[i].0) && m[init[i].0] == init[i].1);
                assert(es[i].0 != es[es.len() - 1].0);
            }
        }
    }
}

/// Replacing the provider of an entry changes the map at that protocol only.
proof fn lemma_entries_map_update(es: Seq<(ApiProtocol, ProviderKind)>, k: int, v: ProviderKind)
    requires
        keys_distinct(es),
        0 <= k < es.len(),
    ensures
        keys_distinct(es.update(k, (es[k].0, v))),
        entries_map(es.update(k, (es[k].0, v))) == entries_map(es).insert(es[k].0, v),
    decreases es.len(),
{
    let es2 = es.update(k, (es[k].0, v));
    assert(keys_distinct(es2)) by {
        assert forall|i: int, j: int| 0 <= i < j < es2.len() implies #[trigger] es2[i].0 != #[trigger] es2[j].0 by {
            assert(es2[i].0 == es[i].0);
            assert(es2[j].0 == es[j].0);
        }
    }
    if k == es.len() - 1 {
        assert(es2.drop_last() =~= es.drop_last());
    } else {
        let init = es.drop_last();
        assert(keys_distinct(init));
        lemma_entries_map_update(init, k, v);
        assert(es2.drop_last() =~= init.update(k, (init[k].0, v)));
        assert(es.last().0 != es[k].0);
        assert(entries_map(es2) =~= entries_map(es).insert(es[k].0, v));
    }
}

/// Every built-in provider, each under its protocol.
pub open spec fn builtin_providers() -> Map<ApiProtocol, ProviderKind> {
    map![
        ApiProtocol::AnthropicMessages => ProviderKind::Anthropic,
        ApiProtocol::OpenAiCompletions => ProviderKind::OpenAiCompat,
        ApiProtocol::OpenAiResponses => ProviderKind::OpenAiResponses,
        ApiProtocol::GoogleGenerativeAi => ProviderKind::Google,
        ApiProtocol::GoogleVertex => ProviderKind::GoogleVertex,
        ApiProtocol::BedrockConverseStream => ProviderKind::Bedrock,
        ApiProtocol::AzureOpenAiResponses => ProviderKind::AzureOpenAi,
    ]
}

impl View for ProviderRegistry {
    type V = Map<ApiProtocol, ProviderKind>;

    closed spec fn view(&self) -> Map<ApiProtocol, ProviderKind> {
        entries_map(self.entries@)
    }
}

/// The position of the entry for `protocol` among entries with distinct keys.
fn position_in(es: &Vec<(ApiProtocol, ProviderKind)>, protocol: &ApiProtocol) -> (r: Option<usize>)
    requires
        keys_distinct(es@),
    ensures
        match r {
            Some(k) => k < es.len() && es@[k as int].0 == *protocol,
            None => !entries_map(es@).contains_key(*protocol),
        },
{
    proof {
        lemma_entries_map(es@);
    }
    let mut i: usize = 0;
    while i < es.len()
        invariant
            0 <= i <= es.len(),
            forall|j: int| 0 <= j < i ==> es@[j].0 != *protocol,
        decreases es.len() - i,
    {
        if es[i].0 == *protocol {
            return Some(i);
        }
        i = i + 1;
    }
    None
}

/// Sets the provider of `protocol` among entries with distinct keys.
fn put(es: &mut Vec<(ApiProtocol, ProviderKind)>, protocol: ApiProtocol, provider: ProviderKind)
    requires
        keys_distinct(old(es)@),
    ensures
        keys_distinct(final(es)@),
        entries_map(final(es)@) == entries_map(old(es)@).insert(protocol, provider),
{
    match position_in(es, &protocol) {
        Some(k) => {
            proof {
                lemma_entries_map_update(es@, k as int, provider);
            }
            es.set(k, (protocol, provider));
        },
        None => {
            proof {
                lemma_entries_map(es@);
            }
            let ghost before = es@;
            es.push((protocol, provider));
            proof {
                assert(es@.drop_last() =~= before);
                assert forall|i: int, j: int| 0 <= i < j < es@.len() implies
                    #[trigger] es@[i].0 != #[trigger] es@[j].0 by {
                    if j == before.len() {
                        assert(entries_map(before).contains_key(before[i].0));
                    } else {
                        assert(es@[i] == before[i] && es@[j] == before[j]);
                    }
                }
            }
        },
    }
}

/// Removing an entry removes its protocol from the map and nothing else.
proof fn lemma_entries_map_remove(es: Seq<(ApiProtocol, ProviderKind)>, k: int)
    requires
        keys_distinct(es),
        0 <= k < es.len(),
    ensures
        keys_distinct(es.remove(k)),
        entries_map(es.remove(k)) == entries_map(es).remove(es[k].0),
    decreases es.len(),
{
    let es2 = es.remove(k);
    assert(keys_distinct(es2)) by {
        assert forall|i: int, j: int| 0 <= i < j < es2.len() implies #[trigger] es2[i].0 != #[trigger] es2[j].0 by {
            let a = if i < k { i } else { i + 1 };
            let b = if j < k { j } else { j + 1 };
            assert(es2[i] == es[a] && es2[j] == es[b]);
        }
    }
    lemma_entries_map(es);
    if k == es.len() - 1 {
        assert(es2 =~= es.drop_last());
        let init = es.drop_last();
        assert(keys_distinct(init));
        lemma_entries_map(init);
        assert forall|p: ApiProtocol| !entries_map(init).contains_key(p) || p != es[k].0 by {
            if entries_map(init).contains_key(p) && p == es[k].0 {
                let i = choose|i: int| 0 <= i < init.len() && init[i].0 == p;
                assert(es[i].0 == es[k].0);
            }
        }
        assert(entries_map(es2) =~= entries_map(es).remove(es[k].0));
    } else {
        let init = es.drop_last();
        assert(keys_distinct(init));
        lemma_entries_map_remove(init, k);
        assert(es2.drop_last() =~= init.remove(k));
        assert(es2.last() == es.last());
        assert(es.last().0 != es[k].0);
        assert(entries_map(es2) =~= entries_map(es).remove(es[k].0));
    }
}

impl ProviderRegistry {
    /// Each protocol has at most one entry.
    #[verifier::type_invariant]
    spec fn wf(&self) -> bool {
        keys_distinct(self.entries@)
    }

    /// An empty registry.
    pub fn new() -> (r: ProviderRegistry)
        ensures
            r@ == Map::<ApiProtocol, ProviderKind>::empty(),
    {
        ProviderRegistry { entries: Vec::new() }
    }

    /// Registers `provider` for `protocol`, replacing any provider registered for it before.
    pub fn register(&mut self, protocol: ApiProtocol, provider: ProviderKind)
        ensures
            final(self)@ == old(self)@.insert(protocol, provider),
    {
        proof {
            use_type_invariant(&*self);
        }
        let mut es: Vec<(ApiProtocol, ProviderKind)> = Vec::new();
        std::mem::swap(&mut es, &mut self.entries);
        put(&mut es, protocol, provider);
        self.entries = es;
    }

    /// Removes and returns the provider registered for `protocol`, if any.
    pub fn take(&mut self, protocol: &ApiProtocol) -> (r: Option<ProviderKind>)
        ensures
            final(self)@ == old(self)@.remove(*protocol),
            match r {
                Some(x) => old(self)@.contains_key(*protocol) && x == old(self)@[*protocol],
                None => !old(self)@.contains_key(*protocol),
            },
    {
        proof {
            use_type_invariant(&*self);
        }
        let mut es: Vec<(ApiProtocol, ProviderKind)> = Vec::new();
        std::mem::swap(&mut es, &mut self.entries);
        match position_in(&es, protocol) {
            Some(k) => {
                proof {
                    lemma_entries_map(es@);
                    lemma_entries_map_remove(es@, k as int);
                }
                let (_, kind) = es.remove(k);
                self.entries = es;
                Some(kind)
            },
            None => {
                proof {
                    assert(entries_map(es@).remove(*protocol) =~= entries_map(es@));
                }
                self.entries = es;
                None
            },
        }
    }

    /// The provider registered for `protocol`, if any.
    pub fn get(&self, protocol: &ApiProtocol) -> (r: Option<&ProviderKind>)
        ensures
            match r {
                Some(x) => self@.contains_key(*protocol) && *x == self@[*protocol],
                None => !self@.contains_key(*protocol),
            },
    {
        proof {
            use_type_invariant(self);
            lemma_entries_map(self.entries@);
        }
        match position_in(&self.entries, protocol) {
            Some(k) => Some(&self.entries[k].1),
            None => None,
        }
    }

    /// Whether a provider is registered for `protocol`.
    pub fn has(&self, protocol: &ApiProtocol) -> (r: bool)
        ensures
            r == self@.contains_key(*protocol),
    {
        proof {
            use_type_invariant(self);
            lemma_entries_map(self.entries@);
        }
        position_in(&self.entries, protocol).is_some()
    }

    /// The protocols that have a registered provider, each once.
    pub fn protocols(&self) -> (r: Vec<ApiProtocol>)
        ensures
            r@.no_duplicates(),
            r@.to_set() == self@.dom(),
            r@.len() == self@.dom().len(),
    {
        proof {
            use_type_invariant(self);
            lemma_entries_map(self.entries@);
        }
        let mut out: Vec<ApiProtocol> = Vec::new();
        let mut i: usize = 0;
        while i < self.entries.len()
            invariant
                0 <= i <= self.entries.len(),
                keys_distinct(self.entries@),
                out@.len() == i,
                forall|j: int| 0 <= j < i ==> out@[j] == #[trigger] self.entries@[j].0,
            decreases self.entries.len() - i,
        {
            out.push(self.entries[i].0);
            i = i + 1;
        }
        proof {
            assert forall|a: int, b: int| 0 <= a < out@.len() && 0 <= b < out@.len() && a != b
                implies out@[a] != out@[b] by {
                if a < b {
                    assert(self.entries@[a].0 != self.entries@[b].0);
                } else {
                    assert(self.entries@[b].0 != self.entries@[a].0);
                }
            }
            assert forall|p: ApiProtocol| out@.to_set().contains(p) <==> self@.dom().contains(p) by {
                if out@.to_set().contains(p) {
                    let j = choose|j: int| 0 <= j < out@.len() && out@[j] == p;
                    assert(self.entries@[j].0 == p);
                }
                if self@.dom().contains(p) {
                    let j = choose|j: int| 0 <= j < self.entries@.len() && self.entries@[j].0 == p;
                    assert(out@[j] == p);
                    assert(out@.contains(p));
                }
            }
            assert(out@.to_set() =~= self@.dom());
            out@.unique_seq_to_set();
        }
        out
    }

    /// The registry with every built-in provider, each under its protocol.
    pub fn with_builtin() -> (r: ProviderRegistry)
        ensures
            r@ == builtin_providers(),
    {
        let mut r = ProviderRegistry::new();
        r.register(ApiProtocol::AnthropicMessages, ProviderKind::Anthropic);
        r.register(ApiProtocol::OpenAiCompletions, ProviderKind::OpenAiCompat);
        r.register(ApiProtocol::OpenAiResponses, ProviderKind::OpenAiResponses);
        r.register(ApiProtocol::GoogleGenerativeAi, ProviderKind::Google);
        r.register(ApiProtocol::GoogleVertex, ProviderKind::GoogleVertex);
        r.register(ApiProtocol::BedrockConverseStream, ProviderKind::Bedrock);
        r.register(ApiProtocol::AzureOpenAiResponses, ProviderKind::AzureOpenAi);
        proof {
            assert(r@ =~= builtin_providers());
        }
        r
    }
}

impl Default for ProviderRegistry {
    /// The registry with every built-in provider.
    fn default() -> (r: ProviderRegistry)
        ensures
            r@ == builtin_providers(),
    {
        ProviderRegistry::with_builtin()
    }
}

/// Registering a provider makes it the one that is found for its protocol,
/// and leaves what is found for every other protocol as it was.
pub proof fn law_register_then_get(
    before: Map<ApiProtocol, ProviderKind>,
    p: ApiProtocol,
    k: ProviderKind,
    q: ApiProtocol,
)
    ensures
        before.insert(p, k).contains_key(p) && before.insert(p, k)[p] == k,
        q != p ==> (before.insert(p, k).contains_key(q) == before.contains_key(q)
            && (before.contains_key(q) ==> before.insert(p, k)[q] == before[q])),
{
}

} // verus!
