//! The guild settings store: one document per guild, keyed by the guild's
//! numeric id, holding the guild's command prefix and its per-command
//! enablement map. A document is created lazily, at most once per guild, on
//! the first prefix lookup or `enable`/`disable` invocation, seeded with the
//! process-wide default prefix.

use vstd::prelude::*;

verus! {

/// Per-command enablement record: a server-wide flag plus per-channel,
/// per-role, and per-user override lists.
pub struct CommandScopes {
    pub server: bool,
    pub roles: Vec<String>,
    pub channels: Vec<String>,
    pub users: Vec<String>,
}

/// One guild's settings document.
pub struct GuildSettings {
    pub id: i64,
    pub prefix: String,
    pub commands: Vec<(String, CommandScopes)>,
}

/// The enablement map a fresh document is seeded with: a single entry for
/// `ping`, disabled nowhere, with empty override lists.
pub open spec fn is_seed_commands(cs: Seq<(String, CommandScopes)>) -> bool {
    cs.len() == 1 && cs[0].0@ == "ping"@ && cs[0].1.server == false && cs[0].1.roles@.len() == 0
        && cs[0].1.channels@.len() == 0 && cs[0].1.users@.len() == 0
}

/// A fresh document for `id`, carrying the default prefix and the seed
/// enablement map.
pub open spec fn is_seed_doc(g: GuildSettings, id: i64, default_prefix: Seq<char>) -> bool {
    g.id == id && g.prefix@ == default_prefix && is_seed_commands(g.commands@)
}

impl GuildSettings {
    /// Build the document a guild gets on first reference.
    pub fn new(id: i64, default_prefix: &str) -> (g: GuildSettings)
        ensures
            is_seed_doc(g, id, default_prefix@),
    {
        let scopes = CommandScopes {
            server: false,
            roles: Vec::new(),
            channels: Vec::new(),
            users: Vec::new(),
        };
        let mut commands: Vec<(String, CommandScopes)> = Vec::new();
        commands.push(("ping".to_owned(), scopes));
        GuildSettings { id, prefix: default_prefix.to_owned(), commands }
    }
}

/// No two documents share a guild id.
pub open spec fn store_wf(s: Seq<GuildSettings>) -> bool {
    forall|i: int, j: int| 0 <= i < j < s.len() ==> s[i].id != s[j].id
}

/// Some document in `s` belongs to guild `id`.
pub open spec fn has_guild(s: Seq<GuildSettings>, id: i64) -> bool {
    exists|i: int| 0 <= i < s.len() && s[i].id == id
}

/// The document of guild `id`; meaningful when `has_guild(s, id)` holds.
pub open spec fn guild_doc(s: Seq<GuildSettings>, id: i64) -> GuildSettings {
    s[choose|i: int| 0 <= i < s.len() && s[i].id == id]
}

/// In a well-formed store, the document at an index with a matching id is
/// the guild's document.
pub proof fn lemma_guild_doc_at(s: Seq<GuildSettings>, id: i64, i: int)
    requires
        store_wf(s),
        0 <= i < s.len(),
        s[i].id == id,
    ensures
        has_guild(s, id),
        guild_doc(s, id) == s[i],
{
    assert(has_guild(s, id));
    let j = choose|j: int| 0 <= j < s.len() && s[j].id == id;
    if i != j {
        assert(s[i].id != s[j].id);
    }
}

/// How many documents of `s` belong to guild `id`.
pub open spec fn count_guild(s: Seq<GuildSettings>, id: i64) -> nat
    decreases s.len(),
{
    if s.len() == 0 {
        0
    } else {
        count_guild(s.drop_last(), id) + if s.last().id == id {
            1nat
        } else {
            0nat
        }
    }
}

/// A well-formed store holds exactly one document for each guild it
/// contains, and none for any other guild.
pub proof fn lemma_one_doc_per_guild(s: Seq<GuildSettings>, id: i64)
    requires
        store_wf(s),
    ensures
        count_guild(s, id) == if has_guild(s, id) {
            1nat
        } else {
            0nat
        },
    decreases s.len(),
{
    if s.len() == 0 {
    } else {
        let init = s.drop_last();
        assert(forall|i: int| 0 <= i < init.len() ==> init[i] == s[i]);
        lemma_one_doc_per_guild(init, id);
        if s.last().id == id {
            assert(forall|i: int| 0 <= i < init.len() ==> init[i].id != id);
            assert(!has_guild(init, id));
        } else {
            if has_guild(init, id) {
                let i = choose|i: int| 0 <= i < init.len() && init[i].id == id;
                assert(s[i].id == id);
            }
            if has_guild(s, id) {
                let i = choose|i: int| 0 <= i < s.len() && s[i].id == id;
                assert(i < s.len() - 1);
                assert(init[i].id == id);
            }
        }
    }
}

/// The prefix a lookup of guild `id` observes: the stored prefix when the
/// guild has a document, nothing otherwise.
pub open spec fn stored_prefix(s: Seq<GuildSettings>, id: i64) -> Option<Seq<char>> {
    if has_guild(s, id) {
        Some(guild_doc(s, id).prefix@)
    } else {
        None
    }
}

/// A guild's first reference creates exactly one settings document, and it
/// carries the configured default prefix.
pub proof fn lemma_first_reference_creates_once(
    pre: Seq<GuildSettings>,
    post: Seq<GuildSettings>,
    g: i64,
    default_prefix: Seq<char>,
)
    requires
        store_wf(post),
        !has_guild(pre, g),
        post == pre.push(guild_doc(post, g)),
        is_seed_doc(guild_doc(post, g), g, default_prefix),
    ensures
        count_guild(post, g) == 1,
        stored_prefix(post, g) == Some(default_prefix),
{
    assert(post[post.len() - 1] == guild_doc(post, g));
    assert(has_guild(post, g));
    lemma_one_doc_per_guild(post, g);
}

/// A prefix written for a guild is what a subsequent lookup of that guild
/// returns.
pub proof fn lemma_prefix_round_trip(s: Seq<GuildSettings>, g: i64, p: Seq<char>)
    requires
        has_guild(s, g),
        guild_doc(s, g).prefix@ == p,
    ensures
        stored_prefix(s, g) == Some(p),
{
}

/// Appending a document for another guild changes nothing about guild `g`.
pub proof fn lemma_push_frame(s: Seq<GuildSettings>, d: GuildSettings, g: i64)
    requires
        g != d.id,
        store_wf(s),
        store_wf(s.push(d)),
    ensures
        has_guild(s.push(d), g) == has_guild(s, g),
        has_guild(s, g) ==> guild_doc(s.push(d), g) == guild_doc(s, g),
{
    let s2 = s.push(d);
    if has_guild(s, g) {
        let j = choose|j: int| 0 <= j < s.len() && s[j].id == g;
        assert(s2[j] == s[j]);
        lemma_guild_doc_at(s2, g, j);
        lemma_guild_doc_at(s, g, j);
    }
    if has_guild(s2, g) {
        let j = choose|j: int| 0 <= j < s2.len() && s2[j].id == g;
        assert(j != s.len());
        assert(s[j].id == g);
        assert(has_guild(s, g));
    }
}

/// Replacing one guild's document changes nothing about another guild `g`.
pub proof fn lemma_update_frame(s: Seq<GuildSettings>, i: int, d: GuildSettings, g: i64)
    requires
        store_wf(s),
        0 <= i < s.len(),
        d.id == s[i].id,
        g != d.id,
        store_wf(s.update(i, d)),
    ensures
        has_guild(s.update(i, d), g) == has_guild(s, g),
        has_guild(s, g) ==> guild_doc(s.update(i, d), g) == guild_doc(s, g),
{
    let s2 = s.update(i, d);
    if has_guild(s, g) {
        let j = choose|j: int| 0 <= j < s.len() && s[j].id == g;
        assert(j != i);
        assert(s2[j] == s[j]);
        lemma_guild_doc_at(s2, g, j);
        lemma_guild_doc_at(s, g, j);
    }
    if has_guild(s2, g) {
        let j = choose|j: int| 0 <= j < s2.len() && s2[j].id == g;
        assert(j != i);
        assert(s[j].id == g);
        assert(has_guild(s, g));
    }
}

/// The in-memory store of guild settings documents.
pub struct SettingsStore {
    pub docs: Vec<GuildSettings>,
}

impl SettingsStore {
    /// The store never holds two documents for one guild.
    pub open spec fn wf(&self) -> bool {
        store_wf(self.docs@)
    }

    /// An empty store: no guild has been seen yet.
    pub fn new() -> (s: SettingsStore)
        ensures
            s.wf(),
            s.docs@.len() == 0,
    {
        SettingsStore { docs: Vec::new() }
    }

    fn find_index(&self, guild_id: i64) -> (r: Option<usize>)
        ensures
            match r {
                Some(i) => i < self.docs@.len() && self.docs@[i as int].id == guild_id,
                None => !has_guild(self.docs@, guild_id),
            },
    {
        let n: usize = self.docs.len();
        let mut k: usize = 0;
        while k < n
            invariant
                n == self.docs@.len(),
                0 <= k <= n,
                forall|j: int| 0 <= j < k ==> self.docs@[j].id != guild_id,
            decreases n - k,
        {
            if self.docs[k].id == guild_id {
                return Some(k);
            }
            k = k + 1;
        }
        None
    }

    /// Look the guild's document up; when the guild has not been seen yet,
    /// insert a fresh document seeded with the default prefix. Either way
    /// the guild has exactly one document afterwards.
    pub fn fetch_or_create(&mut self, guild_id: i64, default_prefix: &str)
        requires
            old(self).wf(),
        ensures
            final(self).wf(),
            has_guild(final(self).docs@, guild_id),
            has_guild(old(self).docs@, guild_id) ==> final(self).docs@ == old(self).docs@,
            !has_guild(old(self).docs@, guild_id) ==> final(self).docs@ == old(self).docs@.push(
                guild_doc(final(self).docs@, guild_id),
            ) && is_seed_doc(guild_doc(final(self).docs@, guild_id), guild_id, default_prefix@),
    {
        let found = self.find_index(guild_id);
        match found {
            Some(i) => {
                proof {
                    lemma_guild_doc_at(self.docs@, guild_id, i as int);
                }
            },
            None => {
                let doc = GuildSettings::new(guild_id, default_prefix);
                self.docs.push(doc);
                proof {
                    let s = self.docs@;
                    assert(forall|i: int, j: int|
                        0 <= i < j < s.len() - 1 ==> s[i].id != s[j].id);
                    assert(forall|i: int| 0 <= i < s.len() - 1 ==> s[i].id != guild_id);
                    lemma_guild_doc_at(s, guild_id, s.len() - 1);
                }
            },
        }
    }

    /// The stored prefix of guild `id`, or nothing when the guild has no
    /// document.
    pub fn read_prefix(&self, guild_id: i64) -> (r: Option<String>)
        requires
            self.wf(),
        ensures
            r.deep_view() == stored_prefix(self.docs@, guild_id),
    {
        let found = self.find_index(guild_id);
        match found {
            Some(i) => {
                proof {
                    lemma_guild_doc_at(self.docs@, guild_id, i as int);
                }
                Some(self.docs[i].prefix.clone())
            },
            None => None,
        }
    }

    /// Set the guild's prefix, creating its document first (with the seed
    /// enablement map) when the guild has not been seen yet. Documents of
    /// other guilds are untouched.
    pub fn set_prefix(&mut self, guild_id: i64, new_prefix: &str, default_prefix: &str)
        requires
            old(self).wf(),
        ensures
            final(self).wf(),
            has_guild(final(self).docs@, guild_id),
            guild_doc(final(self).docs@, guild_id).id == guild_id,
            guild_doc(final(self).docs@, guild_id).prefix@ == new_prefix@,
            has_guild(old(self).docs@, guild_id) ==> guild_doc(
                final(self).docs@,
                guild_id,
            ).commands == guild_doc(old(self).docs@, guild_id).commands,
            !has_guild(old(self).docs@, guild_id) ==> is_seed_commands(
                guild_doc(final(self).docs@, guild_id).commands@,
            ),
            forall|g: i64|
                g != guild_id ==> has_guild(final(self).docs@, g) == has_guild(old(self).docs@, g),
            forall|g: i64|
                g != guild_id && has_guild(old(self).docs@, g) ==> guild_doc(final(self).docs@, g)
                    == guild_doc(old(self).docs@, g),
            final(self).docs@.len() == old(self).docs@.len() + if has_guild(
                old(self).docs@,
                guild_id,
            ) {
                0int
            } else {
                1int
            },
    {
        self.fetch_or_create(guild_id, default_prefix);
        let ghost mid = self.docs@;
        let found = self.find_index(guild_id);
        match found {
            Some(i) => {
                let mut doc = self.docs.remove(i);
                doc.prefix = new_prefix.to_owned();
                self.docs.insert(i, doc);
                proof {
                    let pre = old(self).docs@;
                    let s = self.docs@;
                    assert(s =~= mid.update(i as int, s[i as int]));
                    assert(s[i as int].id == guild_id);
                    assert(forall|a: int, b: int| 0 <= a < b < s.len() ==> s[a].id != s[b].id);
                    lemma_guild_doc_at(s, guild_id, i as int);
                    lemma_guild_doc_at(mid, guild_id, i as int);
                    assert forall|g: i64| g != guild_id implies has_guild(mid, g) == has_guild(
                        pre,
                        g,
                    ) && (has_guild(pre, g) ==> guild_doc(mid, g) == guild_doc(pre, g)) by {
                        if !has_guild(pre, guild_id) {
                            lemma_push_frame(pre, guild_doc(mid, guild_id), g);
                        }
                    }
                    assert forall|g: i64| g != guild_id implies has_guild(s, g) == has_guild(
                        mid,
                        g,
                    ) && (has_guild(mid, g) ==> guild_doc(s, g) == guild_doc(mid, g)) by {
                        lemma_update_frame(mid, i as int, s[i as int], g);
                    }
                }
            },
            None => {
                proof {
                    assert(false);
                }
            },
        }
    }
}

} // verus!
