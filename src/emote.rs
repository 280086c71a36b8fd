use vstd::prelude::*;

verus! {

/// The scope under which the global emotes are cached.
pub const GLOBAL_SCOPE_KEY: &'static str = "_global";

/// An emote that chat text can name.
#[derive(Debug, Default, PartialEq)]
pub struct Emote {
    /// ID of the emote.
    pub id: String,
    /// Name of the emote a viewer types into chat for the image to appear.
    pub name: String,
    /// For a subscriber emote, the tier that unlocks it; empty otherwise.
    pub tier: String,
    /// The type of emote, such as `subscriptions`, `bitstier` or `follower`.
    pub emote_type: String,
    /// ID of the emote set the emote belongs to.
    pub emote_set_id: String,
    /// The formats that the emote is available in.
    pub format: Vec<String>,
    /// The sizes that the emote is available in.
    pub scale: Vec<String>,
    /// The background themes that the emote is available in.
    pub theme_mode: Vec<String>,
}

/// What an emote holds.
pub struct EmoteView {
    pub id: Seq<char>,
    pub name: Seq<char>,
    pub tier: Seq<char>,
    pub emote_type: Seq<char>,
    pub emote_set_id: Seq<char>,
    pub format: Seq<String>,
    pub scale: Seq<String>,
    pub theme_mode: Seq<String>,
}

impl View for Emote {
    type V = EmoteView;

    open spec fn view(&self) -> EmoteView {
        EmoteView {
            id: self.id@,
            name: self.name@,
            tier: self.tier@,
            emote_type: self.emote_type@,
            emote_set_id: self.emote_set_id@,
            format: self.format@,
            scale: self.scale@,
            theme_mode: self.theme_mode@,
        }
    }
}

/// A copy of a list of strings.
fn copy_strings(v: &Vec<String>) -> (r: Vec<String>)
    ensures
        r@ == v@,
{
    let mut r: Vec<String> = Vec::new();
    let mut i: usize = 0;
    while i < v.len()
        invariant
            i <= v@.len(),
            r@ == v@.take(i as int),
        decreases v.len() - i,
    {
        r.push(v[i].clone());
        proof {
            assert(v@.take(i + 1) =~= v@.take(i as int).push(v@[i as int]));
        }
        i = i + 1;
    }
    proof {
        assert(v@.take(v@.len() as int) =~= v@);
    }
    r
}

impl Clone for Emote {
    fn clone(&self) -> (r: Self)
        ensures
            r@ == self@,
    {
        Emote {
            id: self.id.clone(),
            name: self.name.clone(),
            tier: self.tier.clone(),
            emote_type: self.emote_type.clone(),
            emote_set_id: self.emote_set_id.clone(),
            format: copy_strings(&self.format),
            scale: copy_strings(&self.scale),
            theme_mode: copy_strings(&self.theme_mode),
        }
    }
}

/// The emote stored last under `name` among `entries`.
pub open spec fn emote_named(entries: Seq<(Seq<char>, EmoteView)>, name: Seq<char>) -> Option<EmoteView>
    decreases entries.len(),
{
    if entries.len() == 0 {
        None
    } else if entries.last().0 == name {
        Some(entries.last().1)
    } else {
        emote_named(entries.drop_last(), name)
    }
}

/// A store of emotes by name.
pub trait EmoteCacheTrait {
    /// The emote stored under `name`.
    spec fn emote_for(&self, name: Seq<char>) -> Option<EmoteView>;

    /// The cache's name.
    spec fn cache_name(&self) -> Seq<char>;

    /// The providers whose emotes the cache holds.
    spec fn provider_names(&self) -> Seq<Seq<char>>;

    /// Whether the cache keeps what is stored in it.
    spec fn keeps_emotes(&self) -> bool;

    /// A name for the cache.
    fn name(&self) -> (r: String)
        ensures
            r@ == self.cache_name(),
    ;

    /// The providers whose emotes the cache holds.
    fn providers(&self) -> (r: Vec<String>)
        ensures
            r@.map_values(|p: String| p@) == self.provider_names(),
    ;

    /// Stores `emote` under `name`, replacing what was stored there; a cache
    /// that keeps nothing stays as it was.
    fn set_emote(&mut self, name: String, emote: Emote)
        ensures
            final(self).keeps_emotes() == old(self).keeps_emotes(),
            forall|k: Seq<char>| #[trigger] final(self).emote_for(k) == if k == name@ && old(self).keeps_emotes() {
                Some(emote@)
            } else {
                old(self).emote_for(k)
            },
    ;

    /// The emote stored under `name`.
    fn get_emote(&self, name: String) -> (r: Option<Emote>)
        ensures
            match r {
                Some(e) => self.emote_for(name@) == Some(e@),
                None => self.emote_for(name@) is None,
            },
    ;

    /// Whether an emote is stored under `name`.
    fn has_emote(&self, name: String) -> (r: bool)
        ensures
            r == self.emote_for(name@) is Some,
    ;
}

/// The emotes of one provider in one scope (a channel, or the global scope).
pub struct EmoteCache {
    scope: String,
    provider: String,
    store: Vec<(String, Emote)>,
}

/// A cache that keeps nothing: every lookup misses.
pub struct NoneCache {
    pub scope: String,
    pub provider: String,
}

impl NoneCache {
    /// A cache for `scope` that keeps nothing.
    pub fn new(scope: String) -> (r: Self)
        ensures
            r.scope == scope,
            r.provider@ == "NoneCache"@,
    {
        NoneCache { scope, provider: String::from_str("NoneCache") }
    }
}

impl EmoteCacheTrait for NoneCache {
    open spec fn emote_for(&self, name: Seq<char>) -> Option<EmoteView> {
        None
    }

    /// The provider and the scope, as `provider:scope`.
    open spec fn cache_name(&self) -> Seq<char> {
        self.provider@ + ":"@ + self.scope@
    }

    open spec fn provider_names(&self) -> Seq<Seq<char>> {
        seq![]
    }

    open spec fn keeps_emotes(&self) -> bool {
        false
    }

    fn name(&self) -> (r: String) {
        let mut r = self.provider.clone();
        r.append(":");
        r.append(self.scope.as_str());
        r
    }

    fn providers(&self) -> (r: Vec<String>) {
        let r: Vec<String> = Vec::new();
        proof {
            assert(r@.map_values(|p: String| p@) =~= Seq::<Seq<char>>::empty());
        }
        r
    }

    fn set_emote(&mut self, name: String, emote: Emote) {
    }

    fn get_emote(&self, name: String) -> (r: Option<Emote>) {
        None
    }

    fn has_emote(&self, name: String) -> (r: bool) {
        false
    }
}

/// What a cache holds: its scope, its provider, and its entries in the order
/// they were first stored.
pub struct EmoteCacheView {
    pub scope: Seq<char>,
    pub provider: Seq<char>,
    pub entries: Seq<(Seq<char>, EmoteView)>,
}

impl View for EmoteCache {
    type V = EmoteCacheView;

    closed spec fn view(&self) -> EmoteCacheView {
        EmoteCacheView { scope: self.scope@, provider: self.provider@, entries: entries_view(self.store@) }
    }
}

/// The store's entries as names and emotes.
pub open spec fn entries_view(store: Seq<(String, Emote)>) -> Seq<(Seq<char>, EmoteView)> {
    store.map_values(|p: (String, Emote)| (p.0@, p.1@))
}

proof fn lemma_named_past_last_match(s: Seq<(Seq<char>, EmoteView)>, j: int, k: Seq<char>)
    requires
        0 <= j <= s.len(),
        forall|m: int| j <= m < s.len() ==> (#[trigger] s[m]).0 != k,
    ensures
        emote_named(s, k) == emote_named(s.take(j), k),
    decreases s.len() - j,
{
    if j < s.len() {
        assert(s.drop_last().take(j) =~= s.take(j));
        lemma_named_past_last_match(s.drop_last(), j, k);
    } else {
        assert(s.take(j) =~= s);
    }
}

proof fn lemma_named_agree(s: Seq<(Seq<char>, EmoteView)>, t: Seq<(Seq<char>, EmoteView)>, k: Seq<char>)
    requires
        s.len() == t.len(),
        forall|m: int| 0 <= m < s.len() ==> s[m] == t[m] || ((#[trigger] s[m]).0 != k && t[m].0 != k),
    ensures
        emote_named(s, k) == emote_named(t, k),
    decreases s.len(),
{
    if s.len() > 0 {
        lemma_named_agree(s.drop_last(), t.drop_last(), k);
    }
}

impl EmoteCache {
    /// An empty cache of `provider`'s emotes in `scope`.
    pub fn new(scope: String, provider: String) -> (r: Self)
        ensures
            r@.scope == scope@,
            r@.provider == provider@,
            r@.entries.len() == 0,
            forall|k: Seq<char>| #[trigger] r.emote_for(k) is None,
    {
        let r = EmoteCache { scope, provider, store: Vec::new() };
        proof {
            assert(r@.entries =~= Seq::<(Seq<char>, EmoteView)>::empty());
        }
        r
    }

    /// The position of the last entry stored under `name`.
    fn find(&self, name: &String) -> (r: Option<usize>)
        ensures
            match r {
                Some(i) => i < self.store@.len() && self.store@[i as int].0@ == name@ && forall|m: int|
                    i < m < self.store@.len() ==> (#[trigger] self.store@[m]).0@ != name@,
                None => forall|m: int| 0 <= m < self.store@.len() ==> (#[trigger] self.store@[m]).0@ != name@,
            },
    {
        let mut j: usize = self.store.len();
        while j > 0
            invariant
                j <= self.store@.len(),
                forall|m: int| j <= m < self.store@.len() ==> (#[trigger] self.store@[m]).0@ != name@,
            decreases j,
        {
            if self.store[j - 1].0 == *name {
                return Some(j - 1);
            }
            j = j - 1;
        }
        None
    }
}

impl EmoteCacheTrait for EmoteCache {
    open spec fn emote_for(&self, name: Seq<char>) -> Option<EmoteView> {
        emote_named(self@.entries, name)
    }

    /// The provider and the scope, as `provider:scope`.
    open spec fn cache_name(&self) -> Seq<char> {
        self@.provider + ":"@ + self@.scope
    }

    open spec fn provider_names(&self) -> Seq<Seq<char>> {
        seq![self@.provider]
    }

    open spec fn keeps_emotes(&self) -> bool {
        true
    }

    fn name(&self) -> (r: String) {
        let mut r = self.provider.clone();
        r.append(":");
        r.append(self.scope.as_str());
        r
    }

    fn providers(&self) -> (r: Vec<String>) {
        let mut r: Vec<String> = Vec::new();
        r.push(self.provider.clone());
        proof {
            assert(r@.map_values(|p: String| p@) =~= seq![self@.provider]);
        }
        r
    }

    fn set_emote(&mut self, name: String, emote: Emote) {
        self.store_emote(name, emote);
    }

    fn get_emote(&self, name: String) -> (r: Option<Emote>) {
        self.lookup(name)
    }

    fn has_emote(&self, name: String) -> (r: bool) {
        let r = self.lookup(name);
        r.is_some()
    }
}

impl EmoteCache {
    /// Stores `emote` under `name`, replacing what was stored there.
    pub fn store_emote(&mut self, name: String, emote: Emote)
        ensures
            final(self)@.scope == old(self)@.scope,
            final(self)@.provider == old(self)@.provider,
            forall|k: Seq<char>| #[trigger] emote_named(final(self)@.entries, k) == if k == name@ {
                Some(emote@)
            } else {
                emote_named(old(self)@.entries, k)
            },
    {
        let ghost old_entries = entries_view(self.store@);
        let ghost e = (name@, emote@);
        match self.find(&name) {
            Some(i) => {
                self.store.set(i, (name, emote));
                proof {
                    let s = entries_view(self.store@);
                    assert(s =~= old_entries.update(i as int, e));
                    assert forall|k: Seq<char>| #[trigger] emote_named(s, k) == if k == e.0 {
                        Some(e.1)
                    } else {
                        emote_named(old_entries, k)
                    } by {
                        if k == e.0 {
                            lemma_named_past_last_match(s, i + 1, k);
                            assert(s.take(i + 1).last() == e);
                        } else {
                            lemma_named_agree(s, old_entries, k);
                        }
                    }
                }
            },
            None => {
                self.store.push((name, emote));
                proof {
                    let s = entries_view(self.store@);
                    assert(s =~= old_entries.push(e));
                    assert(s.drop_last() =~= old_entries);
                }
            },
        }
    }

    /// The emote stored under `name`.
    pub fn lookup(&self, name: String) -> (r: Option<Emote>)
        ensures
            match r {
                Some(e) => emote_named(self@.entries, name@) == Some(e@),
                None => emote_named(self@.entries, name@) is None,
            },
    {
        match self.find(&name) {
            Some(i) => {
                proof {
                    let s = entries_view(self.store@);
                    lemma_named_past_last_match(s, i + 1, name@);
                    assert(s.take(i + 1).last() == s[i as int]);
                }
                Some(self.store[i].1.clone())
            },
            None => {
                proof {
                    let s = entries_view(self.store@);
                    lemma_named_past_last_match(s, 0, name@);
                }
                None
            },
        }
    }

}

} // verus!

verus! {

/// A clone is an independent copy: what is later stored in one is not seen
/// by the other.
impl Clone for EmoteCache {
    fn clone(&self) -> (r: Self)
        ensures
            r@ == self@,
    {
        let mut store: Vec<(String, Emote)> = Vec::new();
        let mut i: usize = 0;
        while i < self.store.len()
            invariant
                i <= self.store@.len(),
                entries_view(store@) == entries_view(self.store@.take(i as int)),
            decreases self.store.len() - i,
        {
            let (name, emote) = &self.store[i];
            store.push((name.clone(), emote.clone()));
            proof {
                assert(entries_view(self.store@.take(i + 1)) =~= entries_view(self.store@.take(i as int)).push(
                    (self.store@[i as int].0@, self.store@[i as int].1@),
                ));
                assert(entries_view(store@) =~= entries_view(self.store@.take(i + 1)));
            }
            i = i + 1;
        }
        proof {
            assert(self.store@.take(self.store@.len() as int) =~= self.store@);
        }
        EmoteCache { scope: self.scope.clone(), provider: self.provider.clone(), store }
    }
}

/// The emote listed last under `name` among `emotes`.
pub open spec fn last_named(emotes: Seq<Emote>, name: Seq<char>) -> Option<EmoteView>
    decreases emotes.len(),
{
    if emotes.len() == 0 {
        None
    } else if emotes.last().name@ == name {
        Some(emotes.last()@)
    } else {
        last_named(emotes.drop_last(), name)
    }
}

/// A source of emotes.
pub trait EmoteProvider {
    /// The provider's name.
    fn get_name(&self) -> String;

    /// The emotes that the provider offers in `scope`, once they are loaded.
    fn get_emote_cache(&self, scope: String) -> Option<EmoteCache>;
}

/// The platform's own emotes. Only the global scope is kept: a channel's
/// emotes are read from the chat messages themselves.
pub struct TwitchProvider {
    global: Option<EmoteCache>,
}

/// The name under which the platform's emotes are cached.
pub open spec fn twitch_provider_name() -> Seq<char> {
    "TwitchProvider"@
}

impl TwitchProvider {
    /// A provider with nothing loaded.
    pub fn new() -> (r: Self)
        ensures
            r.global_cache() is None,
    {
        TwitchProvider { global: None }
    }

    /// The global cache, once loaded.
    pub closed spec fn global_cache(&self) -> Option<EmoteCacheView> {
        match self.global {
            Some(c) => Some(c@),
            None => None,
        }
    }

    /// Replaces the global cache by one that holds `emotes`, each under its
    /// own name; of two emotes with one name the later is kept.
    pub fn load_global_emotes(&mut self, emotes: Vec<Emote>)
        ensures
            final(self).global_cache() matches Some(c) && c.scope == GLOBAL_SCOPE_KEY@ && c.provider
                == twitch_provider_name() && forall|k: Seq<char>|
                #[trigger] emote_named(c.entries, k) == last_named(emotes@, k),
    {
        let mut cache = EmoteCache::new(String::from_str(GLOBAL_SCOPE_KEY), String::from_str("TwitchProvider"));
        proof {
            reveal_strlit("TwitchProvider");
        }
        let ghost all = emotes@;
        let mut i: usize = 0;
        while i < emotes.len()
            invariant
                all == emotes@,
                i <= all.len(),
                cache@.scope == GLOBAL_SCOPE_KEY@,
                cache@.provider == twitch_provider_name(),
                forall|k: Seq<char>| #[trigger] emote_named(cache@.entries, k) == last_named(all.take(i as int), k),
            decreases emotes.len() - i,
        {
            let e = emotes[i].clone();
            proof {
                assert(all.take(i + 1).drop_last() =~= all.take(i as int));
                assert(all.take(i + 1).last() == all[i as int]);
            }
            cache.store_emote(e.name.clone(), e);
            i = i + 1;
        }
        proof {
            assert(all.take(i as int) =~= all);
        }
        self.global = Some(cache);
    }
}

impl EmoteProvider for TwitchProvider {
    fn get_name(&self) -> (r: String) {
        String::from_str("TwitchProvider")
    }

    fn get_emote_cache(&self, scope: String) -> (r: Option<EmoteCache>) {
        self.global_emotes()
    }
}

impl TwitchProvider {
    /// A copy of the global cache, once loaded.
    pub fn global_emotes(&self) -> (r: Option<EmoteCache>)
        ensures
            match r {
                Some(c) => self.global_cache() == Some(c@),
                None => self.global_cache() is None,
            },
    {
        match &self.global {
            Some(c) => Some(c.clone()),
            None => None,
        }
    }
}

/// The emote providers, and the caches they offer.
pub struct EmoteManager {
    twitch: TwitchProvider,
}

impl EmoteManager {
    /// A manager whose platform provider holds the global emotes `global`.
    pub fn new(global: Vec<Emote>) -> (r: EmoteManager)
        ensures
            r.provider_cache(twitch_provider_name()) matches Some(c) && c.scope == GLOBAL_SCOPE_KEY@
                && forall|k: Seq<char>| #[trigger] emote_named(c.entries, k) == last_named(global@, k),
    {
        let mut twitch = TwitchProvider::new();
        twitch.load_global_emotes(global);
        EmoteManager { twitch }
    }

    /// The cache of the provider named `name`, if there is one and it is
    /// loaded.
    pub closed spec fn provider_cache(&self, name: Seq<char>) -> Option<EmoteCacheView> {
        if name == twitch_provider_name() {
            self.twitch.global_cache()
        } else {
            None
        }
    }

    /// A copy of the cache that the provider named `provider_name` offers in
    /// `scope`.
    pub fn get_emote_cache(&self, scope: String, provider_name: String) -> (r: Option<EmoteCache>)
        ensures
            match r {
                Some(c) => self.provider_cache(provider_name@) == Some(c@),
                None => self.provider_cache(provider_name@) is None,
            },
    {
        proof {
            reveal_strlit("TwitchProvider");
        }
        if provider_name == String::from_str("TwitchProvider") {
            self.twitch.global_emotes()
        } else {
            None
        }
    }
}

} // verus!
