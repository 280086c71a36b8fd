use vstd::prelude::*;

verus! {

/// One version of a chat badge.
#[derive(Debug, Default)]
pub struct Badge {
    /// The set the badge belongs to, such as Bits or Subscriber.
    pub set_id: String,
    /// The version within the set; for Bits, the tier.
    pub id: String,
    /// URL to png of size 28x28
    pub image_url_1x: String,
    /// URL to png of size 56x56
    pub image_url_2x: String,
    /// URL to png of size 112x112
    pub image_url_4x: String,
    /// Title of the badge
    pub title: String,
    /// Description of the badge
    pub description: String,
}

impl Clone for Badge {
    fn clone(&self) -> (r: Self)
        ensures
            r == *self,
    {
        Badge {
            set_id: self.set_id.clone(),
            id: self.id.clone(),
            image_url_1x: self.image_url_1x.clone(),
            image_url_2x: self.image_url_2x.clone(),
            image_url_4x: self.image_url_4x.clone(),
            title: self.title.clone(),
            description: self.description.clone(),
        }
    }
}

/// A set of chat badges and its versions.
#[derive(Debug)]
pub struct BadgeSet {
    /// The set's id, such as Bits or Subscriber.
    pub set_id: String,
    /// The badges of the set.
    pub versions: Vec<Badge>,
}

/// What a badge set holds.
pub struct BadgeSetView {
    pub set_id: Seq<char>,
    pub versions: Seq<Badge>,
}

impl View for BadgeSet {
    type V = BadgeSetView;

    open spec fn view(&self) -> BadgeSetView {
        BadgeSetView { set_id: self.set_id@, versions: self.versions@ }
    }
}

impl Clone for BadgeSet {
    fn clone(&self) -> (r: Self)
        ensures
            r@ == self@,
    {
        let mut versions: Vec<Badge> = Vec::new();
        let mut i: usize = 0;
        while i < self.versions.len()
            invariant
                i <= self.versions@.len(),
                versions@ == self.versions@.take(i as int),
            decreases self.versions.len() - i,
        {
            versions.push(self.versions[i].clone());
            proof {
                assert(self.versions@.take(i + 1) =~= self.versions@.take(i as int).push(self.versions@[i as int]));
            }
            i = i + 1;
        }
        proof {
            assert(self.versions@.take(self.versions@.len() as int) =~= self.versions@);
        }
        BadgeSet { set_id: self.set_id.clone(), versions }
    }
}

/// The first badge of `versions` whose id is `id`.
pub open spec fn first_version(versions: Seq<Badge>, id: Seq<char>) -> Option<Badge>
    decreases versions.len(),
{
    if versions.len() == 0 {
        None
    } else if versions[0].id@ == id {
        Some(versions[0])
    } else {
        first_version(versions.drop_first(), id)
    }
}

proof fn lemma_first_version(versions: Seq<Badge>, id: Seq<char>, i: int)
    requires
        0 <= i <= versions.len(),
        forall|j: int| 0 <= j < i ==> (#[trigger] versions[j]).id@ != id,
    ensures
        first_version(versions, id) == first_version(versions.skip(i), id),
    decreases i,
{
    if i > 0 {
        assert(versions.skip(i) =~= versions.drop_first().skip(i - 1));
        lemma_first_version(versions.drop_first(), id, i - 1);
    } else {
        assert(versions.skip(0) =~= versions);
    }
}

impl BadgeSet {
    /// The first badge of the set whose version id is `version`.
    pub fn version(self, version: String) -> (r: Option<Badge>)
        ensures
            r == first_version(self.versions@, version@),
    {
        let mut i: usize = 0;
        while i < self.versions.len()
            invariant
                i <= self.versions@.len(),
                forall|j: int| 0 <= j < i ==> (#[trigger] self.versions@[j]).id@ != version@,
            decreases self.versions.len() - i,
        {
            if self.versions[i].id == version {
                proof {
                    lemma_first_version(self.versions@, version@, i as int);
                }
                return Some(self.versions[i].clone());
            }
            i = i + 1;
        }
        proof {
            lemma_first_version(self.versions@, version@, i as int);
        }
        None
    }
}

/// The set stored last under `id` among `sets`.
pub open spec fn set_named(sets: Seq<BadgeSetView>, id: Seq<char>) -> Option<BadgeSetView>
    decreases sets.len(),
{
    if sets.len() == 0 {
        None
    } else if sets.last().set_id == id {
        Some(sets.last())
    } else {
        set_named(sets.drop_last(), id)
    }
}

/// The sets stored last for the channel `channel` among `scopes`.
pub open spec fn scope_named(scopes: Seq<(Seq<char>, Seq<BadgeSetView>)>, channel: Seq<char>) -> Option<
    Seq<BadgeSetView>,
>
    decreases scopes.len(),
{
    if scopes.len() == 0 {
        None
    } else if scopes.last().0 == channel {
        Some(scopes.last().1)
    } else {
        scope_named(scopes.drop_last(), channel)
    }
}

proof fn lemma_set_named_from(sets: Seq<BadgeSetView>, j: int, id: Seq<char>)
    requires
        0 <= j <= sets.len(),
        forall|m: int| j <= m < sets.len() ==> (#[trigger] sets[m]).set_id != id,
    ensures
        set_named(sets, id) == set_named(sets.take(j), id),
    decreases sets.len() - j,
{
    if j < sets.len() {
        assert(sets.drop_last().take(j) =~= sets.take(j));
        lemma_set_named_from(sets.drop_last(), j, id);
    } else {
        assert(sets.take(j) =~= sets);
    }
}

proof fn lemma_scope_named_from(scopes: Seq<(Seq<char>, Seq<BadgeSetView>)>, j: int, c: Seq<char>)
    requires
        0 <= j <= scopes.len(),
        forall|m: int| j <= m < scopes.len() ==> (#[trigger] scopes[m]).0 != c,
    ensures
        scope_named(scopes, c) == scope_named(scopes.take(j), c),
    decreases scopes.len() - j,
{
    if j < scopes.len() {
        assert(scopes.drop_last().take(j) =~= scopes.take(j));
        lemma_scope_named_from(scopes.drop_last(), j, c);
    } else {
        assert(scopes.take(j) =~= scopes);
    }
}

/// The views of a list of badge sets.
pub open spec fn sets_view(sets: Seq<BadgeSet>) -> Seq<BadgeSetView> {
    sets.map_values(|b: BadgeSet| b@)
}

/// What the badge manager holds: the global sets, and the sets of each
/// channel that was loaded.
pub struct BadgeManagerView {
    pub global: Seq<BadgeSetView>,
    pub scoped: Seq<(Seq<char>, Seq<BadgeSetView>)>,
}

/// Chat badges: the global sets, and the sets of each loaded channel, which
/// take precedence in that channel.
pub struct BadgeManager {
    global_badges: Vec<BadgeSet>,
    scoped_badges: Vec<(String, Vec<BadgeSet>)>,
}

impl View for BadgeManager {
    type V = BadgeManagerView;

    closed spec fn view(&self) -> BadgeManagerView {
        BadgeManagerView {
            global: sets_view(self.global_badges@),
            scoped: self.scoped_badges@.map_values(|p: (String, Vec<BadgeSet>)| (p.0@, sets_view(p.1@))),
        }
    }
}

/// The position of the last set of `sets` stored under `id`.
fn find_set(sets: &Vec<BadgeSet>, id: &String) -> (r: Option<usize>)
    ensures
        match r {
            Some(i) => i < sets@.len() && sets@[i as int].set_id@ == id@ && forall|m: int|
                i < m < sets@.len() ==> (#[trigger] sets@[m]).set_id@ != id@,
            None => forall|m: int| 0 <= m < sets@.len() ==> (#[trigger] sets@[m]).set_id@ != id@,
        },
{
    let mut j: usize = sets.len();
    while j > 0
        invariant
            j <= sets@.len(),
            forall|m: int| j <= m < sets@.len() ==> (#[trigger] sets@[m]).set_id@ != id@,
        decreases j,
    {
        if sets[j - 1].set_id == *id {
            return Some(j - 1);
        }
        j = j - 1;
    }
    None
}

/// A copy of the set stored last under `id`.
fn lookup_set(sets: &Vec<BadgeSet>, id: &String) -> (r: Option<BadgeSet>)
    ensures
        match r {
            Some(b) => set_named(sets_view(sets@), id@) == Some(b@),
            None => set_named(sets_view(sets@), id@) is None,
        },
{
    let ghost s = sets_view(sets@);
    match find_set(sets, id) {
        Some(i) => {
            proof {
                lemma_set_named_from(s, i + 1, id@);
                assert(s.take(i + 1).last() == s[i as int]);
            }
            Some(sets[i].clone())
        },
        None => {
            proof {
                lemma_set_named_from(s, 0, id@);
            }
            None
        },
    }
}

/// The set that the manager offers for `set_id` in `channel`: the channel's
/// own, else the global one.
pub open spec fn badge_lookup(m: BadgeManagerView, set_id: Seq<char>, channel: Seq<char>) -> Option<BadgeSetView> {
    match scope_named(m.scoped, channel) {
        Some(sets) => match set_named(sets, set_id) {
            Some(b) => Some(b),
            None => set_named(m.global, set_id),
        },
        None => set_named(m.global, set_id),
    }
}

impl BadgeManager {
    /// A manager that knows the global sets `global` and no channel.
    pub fn new(global: Vec<BadgeSet>) -> (r: BadgeManager)
        ensures
            r@.global == sets_view(global@),
            r@.scoped.len() == 0,
    {
        let r = BadgeManager { global_badges: global, scoped_badges: Vec::new() };
        proof {
            assert(r@.scoped =~= Seq::<(Seq<char>, Seq<BadgeSetView>)>::empty());
        }
        r
    }

    /// The position of the last scope stored for `channel`.
    fn find_scope(&self, channel: &String) -> (r: Option<usize>)
        ensures
            match r {
                Some(i) => i < self.scoped_badges@.len() && self.scoped_badges@[i as int].0@ == channel@
                    && forall|m: int| i < m < self.scoped_badges@.len() ==> (#[trigger] self.scoped_badges@[m]).0@ != channel@,
                None => forall|m: int| 0 <= m < self.scoped_badges@.len() ==> (#[trigger] self.scoped_badges@[m]).0@ != channel@,
            },
    {
        let mut j: usize = self.scoped_badges.len();
        while j > 0
            invariant
                j <= self.scoped_badges@.len(),
                forall|m: int| j <= m < self.scoped_badges@.len() ==> (#[trigger] self.scoped_badges@[m]).0@ != channel@,
            decreases j,
        {
            if self.scoped_badges[j - 1].0 == *channel {
                return Some(j - 1);
            }
            j = j - 1;
        }
        None
    }

    /// Whether the sets of `broadcaster_id` have been loaded.
    pub fn has_channel(&self, broadcaster_id: &String) -> (r: bool)
        ensures
            r == scope_named(self@.scoped, broadcaster_id@) is Some,
    {
        let ghost s = self@.scoped;
        match self.find_scope(broadcaster_id) {
            Some(i) => {
                proof {
                    lemma_scope_named_from(s, i + 1, broadcaster_id@);
                    assert(s.take(i + 1).last() == s[i as int]);
                }
                true
            },
            None => {
                proof {
                    lemma_scope_named_from(s, 0, broadcaster_id@);
                }
                false
            },
        }
    }

    /// Stores the sets of `broadcaster_id`, unless its sets are already
    /// stored.
    pub fn load_channel(&mut self, broadcaster_id: String, sets: Vec<BadgeSet>)
        ensures
            scope_named(old(self)@.scoped, broadcaster_id@) is Some ==> final(self)@ == old(self)@,
            scope_named(old(self)@.scoped, broadcaster_id@) is None ==> final(self)@ == (BadgeManagerView {
                scoped: old(self)@.scoped.push((broadcaster_id@, sets_view(sets@))),
                ..old(self)@
            }),
    {
        if !self.has_channel(&broadcaster_id) {
            let ghost old_view = self@;
            self.scoped_badges.push((broadcaster_id, sets));
            proof {
                assert(self@.scoped =~= old_view.scoped.push((broadcaster_id@, sets_view(sets@))));
                assert(self@.global =~= old_view.global);
            }
        }
    }

    /// The set for `set_id` in `channel`: the channel's own, else the global
    /// one.
    pub fn get(&self, set_id: String, channel: String) -> (r: Option<BadgeSet>)
        ensures
            match r {
                Some(b) => badge_lookup(self@, set_id@, channel@) == Some(b@),
                None => badge_lookup(self@, set_id@, channel@) is None,
            },
    {
        let ghost s = self@.scoped;
        match self.find_scope(&channel) {
            Some(i) => {
                proof {
                    lemma_scope_named_from(s, i + 1, channel@);
                    assert(s.take(i + 1).last() == s[i as int]);
                }
                match lookup_set(&self.scoped_badges[i].1, &set_id) {
                    Some(b) => Some(b),
                    None => lookup_set(&self.global_badges, &set_id),
                }
            },
            None => {
                proof {
                    lemma_scope_named_from(s, 0, channel@);
                }
                lookup_set(&self.global_badges, &set_id)
            },
        }
    }
}

} // verus!
