use vstd::prelude::*;
use crate::settings::{ManagerEntry, grants, manager_mention, manager_mention_text};

verus! {

// ---------------------------------------------------------------------------
// The managers of a guild's settings
// ---------------------------------------------------------------------------

/// Some entry of `s` makes `id` a manager in `guild`.
pub open spec fn has_manager(s: Seq<ManagerEntry>, guild: i64, id: i64) -> bool {
    exists|i: int| 0 <= i < s.len() && s[i].guild_id == guild && s[i].manager_id == id
}

/// No two entries of `s` name the same id in the same guild.
pub open spec fn unique_managers(s: Seq<ManagerEntry>) -> bool {
    forall|i: int, j: int|
        0 <= i < j < s.len() ==> !(s[i].guild_id == s[j].guild_id && s[i].manager_id
            == s[j].manager_id)
}

/// The entries of `s` that do not name `id` in `guild`.
pub open spec fn without_manager(s: Seq<ManagerEntry>, guild: i64, id: i64) -> Seq<ManagerEntry>
    decreases s.len(),
{
    if s.len() == 0 {
        Seq::empty()
    } else if s.last().guild_id == guild && s.last().manager_id == id {
        without_manager(s.drop_last(), guild, id)
    } else {
        without_manager(s.drop_last(), guild, id).push(s.last())
    }
}

/// The entries of `s` for `guild`, in order.
pub open spec fn managers_of(s: Seq<ManagerEntry>, guild: i64) -> Seq<ManagerEntry>
    decreases s.len(),
{
    if s.len() == 0 {
        Seq::empty()
    } else if s.last().guild_id == guild {
        managers_of(s.drop_last(), guild).push(s.last())
    } else {
        managers_of(s.drop_last(), guild)
    }
}

proof fn lemma_without_absent(s: Seq<ManagerEntry>, guild: i64, id: i64)
    requires
        !has_manager(s, guild, id),
    ensures
        without_manager(s, guild, id) == s,
    decreases s.len(),
{
    if s.len() > 0 {
        assert(!has_manager(s.drop_last(), guild, id)) by {
            if has_manager(s.drop_last(), guild, id) {
                let i = choose|i: int|
                    0 <= i < s.drop_last().len() && s.drop_last()[i].guild_id == guild
                        && s.drop_last()[i].manager_id == id;
                assert(s[i] == s.drop_last()[i]);
            }
        }
        lemma_without_absent(s.drop_last(), guild, id);
        assert(s.last() == s[s.len() - 1]);
        assert(s.drop_last().push(s.last()) =~= s);
    }
}

proof fn lemma_without_keeps_only(s: Seq<ManagerEntry>, guild: i64, id: i64, g: i64, m: i64)
    ensures
        has_manager(without_manager(s, guild, id), g, m) ==> has_manager(s, g, m),
    decreases s.len(),
{
    if s.len() > 0 {
        lemma_without_keeps_only(s.drop_last(), guild, id, g, m);
        let w = without_manager(s.drop_last(), guild, id);
        if has_manager(without_manager(s, guild, id), g, m) {
            if !(s.last().guild_id == guild && s.last().manager_id == id) {
                let k = choose|k: int|
                    0 <= k < w.len() + 1 && w.push(s.last())[k].guild_id == g && w.push(
                        s.last(),
                    )[k].manager_id == m;
                if k < w.len() {
                    assert(w[k] == w.push(s.last())[k]);
                    let j = choose|j: int|
                        0 <= j < s.drop_last().len() && s.drop_last()[j].guild_id == g
                            && s.drop_last()[j].manager_id == m;
                    assert(s[j] == s.drop_last()[j]);
                } else {
                    assert(s[s.len() - 1] == s.last());
                }
            } else {
                let j = choose|j: int|
                    0 <= j < s.drop_last().len() && s.drop_last()[j].guild_id == g
                        && s.drop_last()[j].manager_id == m;
                assert(s[j] == s.drop_last()[j]);
            }
        }
    }
}

proof fn lemma_without_unique(s: Seq<ManagerEntry>, guild: i64, id: i64)
    requires
        unique_managers(s),
    ensures
        unique_managers(without_manager(s, guild, id)),
    decreases s.len(),
{
    if s.len() > 0 {
        let d = s.drop_last();
        assert(unique_managers(d)) by {
            assert forall|i: int, j: int| 0 <= i < j < d.len() implies !(d[i].guild_id
                == d[j].guild_id && d[i].manager_id == d[j].manager_id) by {
                assert(d[i] == s[i] && d[j] == s[j]);
            }
        }
        lemma_without_unique(d, guild, id);
        let w = without_manager(d, guild, id);
        let x = s.last();
        if !(x.guild_id == guild && x.manager_id == id) {
            lemma_without_keeps_only(d, guild, id, x.guild_id, x.manager_id);
            assert(!has_manager(d, x.guild_id, x.manager_id)) by {
                if has_manager(d, x.guild_id, x.manager_id) {
                    let j = choose|j: int|
                        0 <= j < d.len() && d[j].guild_id == x.guild_id && d[j].manager_id
                            == x.manager_id;
                    assert(s[j] == d[j]);
                    assert(s[s.len() - 1] == x);
                }
            }
            let p = w.push(x);
            assert forall|i: int, j: int| 0 <= i < j < p.len() implies !(p[i].guild_id
                == p[j].guild_id && p[i].manager_id == p[j].manager_id) by {
                if j == w.len() {
                    assert(p[i] == w[i]);
                    if p[i].guild_id == x.guild_id && p[i].manager_id == x.manager_id {
                        assert(has_manager(w, x.guild_id, x.manager_id));
                    }
                } else {
                    assert(p[i] == w[i] && p[j] == w[j]);
                }
            }
        }
    }
}

/// The managers of the guilds, as stored.
pub struct ManagerStore {
    entries: Vec<ManagerEntry>,
}

impl View for ManagerStore {
    type V = Seq<ManagerEntry>;

    /// The entries, in the order they were added.
    closed spec fn view(&self) -> Seq<ManagerEntry> {
        self.entries@
    }
}

impl ManagerStore {
    /// No id is stored twice for a guild.
    #[verifier::type_invariant]
    spec fn well_formed(&self) -> bool {
        unique_managers(self.entries@)
    }

    /// The entries, in the order they were added; no id is stored twice for a guild.
    pub fn entries(&self) -> (r: &Vec<ManagerEntry>)
        ensures
            r@ == self@,
            unique_managers(self@),
    {
        proof {
            use_type_invariant(self);
        }
        &self.entries
    }

    /// A store with no manager.
    pub fn new() -> (s: Self)
        ensures
            s@ == Seq::<ManagerEntry>::empty(),
            unique_managers(s@),
    {
        ManagerStore { entries: Vec::new() }
    }

    /// A store holding the given entries, each id once per guild (the first entry for it).
    pub fn restore(entries: Vec<ManagerEntry>) -> (s: Self)
        ensures
            unique_managers(s@),
            forall|g: i64, id: i64| has_manager(s@, g, id) <==> has_manager(entries@, g, id),
    {
        let mut s = ManagerStore::new();
        let mut i: usize = 0;
        while i < entries.len()
            invariant
                i <= entries.len(),
                unique_managers(s@),
                forall|g: i64, id: i64|
                    has_manager(s@, g, id) <==> has_manager(entries@.take(i as int), g, id),
            decreases entries.len() - i,
        {
            let e = entries[i];
            let ghost before = s@;
            s.add(e.guild_id, e.manager_id, e.is_role);
            proof {
                let t = entries@.take(i + 1);
                assert(t == entries@.take(i as int).push(e));
                assert forall|g: i64, id: i64| has_manager(s@, g, id) <==> has_manager(t, g, id) by {
                    if has_manager(t, g, id) {
                        let k = choose|k: int| 0 <= k < t.len() && t[k].guild_id == g && t[k].manager_id == id;
                        if k < i {
                            assert(entries@.take(i as int)[k] == t[k]);
                            assert(has_manager(entries@.take(i as int), g, id));
                            assert(has_manager(before, g, id));
                            let m = choose|m: int| 0 <= m < before.len() && before[m].guild_id == g && before[m].manager_id == id;
                            assert(s@[m] == before[m]);
                        } else {
                            if has_manager(before, g, id) {
                                let m = choose|m: int| 0 <= m < before.len() && before[m].guild_id == g && before[m].manager_id == id;
                                assert(s@[m] == before[m]);
                            } else {
                                assert(s@[before.len() as int] == e);
                            }
                        }
                    }
                    if has_manager(s@, g, id) {
                        let k = choose|k: int| 0 <= k < s@.len() && s@[k].guild_id == g && s@[k].manager_id == id;
                        if k < before.len() {
                            assert(s@[k] == before[k]);
                            assert(has_manager(before, g, id));
                            let m = choose|m: int| 0 <= m < i && entries@.take(i as int)[m].guild_id == g && entries@.take(i as int)[m].manager_id == id;
                            assert(t[m] == entries@.take(i as int)[m]);
                        } else {
                            assert(t[i as int] == e);
                        }
                    }
                }
            }
            i = i + 1;
        }
        assert(entries@.take(entries.len() as int) =~= entries@);
        s
    }

    /// Whether `id` is a manager in `guild`.
    pub fn contains(&self, guild: i64, id: i64) -> (b: bool)
        ensures
            b == has_manager(self@, guild, id),
    {
        let mut i: usize = 0;
        while i < self.entries.len()
            invariant
                i <= self.entries.len(),
                forall|k: int|
                    0 <= k < i ==> !(self.entries@[k].guild_id == guild
                        && self.entries@[k].manager_id == id),
            decreases self.entries.len() - i,
        {
            if self.entries[i].guild_id == guild && self.entries[i].manager_id == id {
                return true;
            }
            i = i + 1;
        }
        false
    }

    /// Makes `id` (a role where `is_role` holds, else a user) a manager in `guild`, unless it
    /// is one already; says whether it was added.
    pub fn add(&mut self, guild: i64, id: i64, is_role: bool) -> (added: bool)
        ensures
            unique_managers(final(self)@),
            added == !has_manager(old(self)@, guild, id),
            added ==> final(self)@ == old(self)@.push(
                ManagerEntry { guild_id: guild, manager_id: id, is_role },
            ),
            !added ==> final(self)@ == old(self)@,
    {
        proof {
            use_type_invariant(&*self);
        }
        if self.contains(guild, id) {
            return false;
        }
        let mut v: Vec<ManagerEntry> = Vec::new();
        std::mem::swap(&mut v, &mut self.entries);
        let ghost before = v@;
        v.push(ManagerEntry { guild_id: guild, manager_id: id, is_role });
        assert forall|i: int, j: int| 0 <= i < j < v@.len() implies !(v@[i].guild_id
            == v@[j].guild_id && v@[i].manager_id == v@[j].manager_id) by {
            if j == before.len() {
                assert(v@[i] == before[i]);
            } else {
                assert(v@[i] == before[i]);
                assert(v@[j] == before[j]);
            }
        }
        self.entries = v;
        true
    }

    /// Makes `id` no longer a manager in `guild`; says whether it was one.
    pub fn remove(&mut self, guild: i64, id: i64) -> (removed: bool)
        ensures
            unique_managers(final(self)@),
            removed == has_manager(old(self)@, guild, id),
            final(self)@ == without_manager(old(self)@, guild, id),
    {
        proof {
            use_type_invariant(&*self);
        }
        let found = self.contains(guild, id);
        let mut kept: Vec<ManagerEntry> = Vec::new();
        let mut i: usize = 0;
        while i < self.entries.len()
            invariant
                i <= self.entries.len(),
                kept@ == without_manager(self.entries@.take(i as int), guild, id),
            decreases self.entries.len() - i,
        {
            let e = self.entries[i];
            assert(self.entries@.take(i + 1).drop_last() =~= self.entries@.take(i as int));
            assert(self.entries@.take(i + 1).last() == e);
            if !(e.guild_id == guild && e.manager_id == id) {
                kept.push(e);
            }
            i = i + 1;
        }
        assert(self.entries@.take(self.entries.len() as int) =~= self.entries@);
        proof {
            lemma_without_unique(self.entries@, guild, id);
        }
        self.entries = kept;
        found
    }

    /// The managers of `guild`, in the order they were added.
    pub fn managers_in(&self, guild: i64) -> (r: Vec<ManagerEntry>)
        ensures
            r@ == managers_of(self@, guild),
    {
        let mut r: Vec<ManagerEntry> = Vec::new();
        let mut i: usize = 0;
        while i < self.entries.len()
            invariant
                i <= self.entries.len(),
                r@ == managers_of(self.entries@.take(i as int), guild),
            decreases self.entries.len() - i,
        {
            let e = self.entries[i];
            assert(self.entries@.take(i + 1).drop_last() =~= self.entries@.take(i as int));
            assert(self.entries@.take(i + 1).last() == e);
            if e.guild_id == guild {
                r.push(e);
            }
            i = i + 1;
        }
        assert(self.entries@.take(self.entries.len() as int) =~= self.entries@);
        r
    }
}

/// A user just made a manager may change the guild's settings; adding an id that was no
/// manager and removing it again gives back the entries as they were.
pub proof fn law_added_manager_then_removed(s: Seq<ManagerEntry>, guild: i64, id: i64, is_role: bool, roles: Seq<i64>)
    requires
        !has_manager(s, guild, id),
    ensures
        !is_role ==> grants(ManagerEntry { guild_id: guild, manager_id: id, is_role }, guild, id, roles),
        is_role && roles.contains(id) ==> grants(
            ManagerEntry { guild_id: guild, manager_id: id, is_role },
            guild,
            0,
            roles,
        ),
        without_manager(s.push(ManagerEntry { guild_id: guild, manager_id: id, is_role }), guild, id)
            == s,
{
    let e = ManagerEntry { guild_id: guild, manager_id: id, is_role };
    assert(s.push(e).drop_last() =~= s);
    assert(s.push(e).last() == e);
    lemma_without_absent(s, guild, id);
}

/// Who a request to add or remove a manager names: exactly one of a user or a role must be
/// given; the result is the id, whether it is a role, and the name shown.
pub fn manager_target(user: Option<(i64, String)>, role: Option<(i64, String)>) -> (r: Result<(i64, bool, String), String>)
    ensures
        match (user, role) {
            (Some(_), Some(_)) => r matches Err(m) && m@
                == "ユーザーとロールは同時には指定できません。どちらか一方のみを指定してください。"@,
            (None, None) => r matches Err(m) && m@
                == "ユーザーまたはロールのどちらか一方を指定してください。"@,
            (Some(u), None) => r matches Ok(t) && t.0 == u.0 && !t.1 && t.2@ == u.1@,
            (None, Some(g)) => r matches Ok(t) && t.0 == g.0 && t.1 && t.2@ == g.1@,
        },
{
    match (user, role) {
        (Some(_), Some(_)) => Err(
            String::from_str(
                "ユーザーとロールは同時には指定できません。どちらか一方のみを指定してください。",
            ),
        ),
        (None, None) => Err(String::from_str("ユーザーまたはロールのどちらか一方を指定してください。")),
        (Some(u), None) => Ok((u.0, false, u.1)),
        (None, Some(g)) => Ok((g.0, true, g.1)),
    }
}

fn quoted(name: &str, tail: &str) -> (r: String)
    ensures
        r@ == "`"@ + name@ + "`"@ + tail@,
{
    let mut s = String::from_str("`");
    s.append(name);
    s.append("`");
    s.append(tail);
    s
}

/// The reply after a request to add a manager named `name`: whether it was added.
pub fn manager_added_reply(added: bool, name: &str) -> (r: String)
    ensures
        r@ == (if added {
            "`"@ + name@ + "`"@ + "をサーバー設定の管理者に追加しました。"@
        } else {
            "このユーザーまたはロールは既に管理者に追加されています。"@
        }),
{
    if added {
        quoted(name, "をサーバー設定の管理者に追加しました。")
    } else {
        String::from_str("このユーザーまたはロールは既に管理者に追加されています。")
    }
}

/// The reply after a request to remove a manager named `name`: whether it was one.
pub fn manager_removed_reply(removed: bool, name: &str) -> (r: String)
    ensures
        r@ == (if removed {
            "`"@ + name@ + "`"@ + "をサーバー設定の管理者から削除しました。"@
        } else {
            "このユーザーまたはロールは管理者ではありません。"@
        }),
{
    if removed {
        quoted(name, "をサーバー設定の管理者から削除しました。")
    } else {
        String::from_str("このユーザーまたはロールは管理者ではありません。")
    }
}

/// How many mentions a page of the list of managers shows.
pub const MANAGERS_PER_PAGE: usize = 25;

/// The list of managers in pages of 25 mentions each: page `i` mentions, in order, the
/// managers from the `25 * i`-th on.
pub open spec fn manager_pages_ok(pages: Seq<Vec<String>>, s: Seq<ManagerEntry>) -> bool {
    &&& pages.len() == (s.len() + 24) / 25
    &&& forall|i: int|
        0 <= i < pages.len() ==> (#[trigger] pages[i])@.len() == (if s.len() - 25 * i >= 25 {
            25
        } else {
            s.len() - 25 * i
        })
    &&& forall|i: int, j: int|
        0 <= i < pages.len() && 0 <= j < pages[i]@.len() ==> (#[trigger] pages[i]@[j])@
            == manager_mention_text(s[25 * i + j])
}

/// Lays the managers' mentions out in pages of 25.
pub fn manager_pages(managers: &Vec<ManagerEntry>) -> (pages: Vec<Vec<String>>)
    ensures
        manager_pages_ok(pages@, managers@),
{
    let n = managers.len();
    let total: usize = n / MANAGERS_PER_PAGE + if n % MANAGERS_PER_PAGE > 0 {
        1
    } else {
        0
    };
    let mut pages: Vec<Vec<String>> = Vec::new();
    let mut i: usize = 0;
    let mut start: usize = 0;
    while i < total
        invariant
            n == managers@.len(),
            total == (n + 24) / 25,
            i <= total,
            i < total ==> start == 25 * i,
            pages@.len() == i,
            forall|q: int|
                0 <= q < i ==> (#[trigger] pages@[q])@.len() == (if n - 25 * q >= 25 {
                    25
                } else {
                    n - 25 * q
                }),
            forall|q: int, j: int|
                0 <= q < i && 0 <= j < pages@[q]@.len() ==> (#[trigger] pages@[q]@[j])@
                    == manager_mention_text(managers@[25 * q + j]),
        decreases total - i,
    {
        let end: usize = if n - start >= MANAGERS_PER_PAGE {
            start + MANAGERS_PER_PAGE
        } else {
            n
        };
        let mut page: Vec<String> = Vec::new();
        let mut k: usize = start;
        while k < end
            invariant
                start <= k <= end <= n,
                n == managers@.len(),
                page@.len() == k - start,
                forall|j: int|
                    0 <= j < k - start ==> (#[trigger] page@[j])@ == manager_mention_text(
                        managers@[start + j],
                    ),
            decreases end - k,
        {
            page.push(manager_mention(&managers[k]));
            k = k + 1;
        }
        let ghost before = pages@;
        pages.push(page);
        assert forall|q: int, j: int| 0 <= q < i + 1 && 0 <= j < pages@[q]@.len() implies (
        #[trigger] pages@[q]@[j])@ == manager_mention_text(managers@[25 * q + j]) by {
            if q < i {
                assert(pages@[q] == before[q]);
            }
        }
        assert forall|q: int| 0 <= q < i + 1 implies (#[trigger] pages@[q])@.len() == (if n - 25
            * q >= 25 {
            25
        } else {
            n - 25 * q
        }) by {
            if q < i {
                assert(pages@[q] == before[q]);
            }
        }
        i = i + 1;
        if i < total {
            start = start + MANAGERS_PER_PAGE;
        }
    }
    pages
}

// ---------------------------------------------------------------------------
// The bots whose messages are read
// ---------------------------------------------------------------------------

/// Some entry of `s` lists `bot` in `guild`.
pub open spec fn has_bot(s: Seq<(i64, i64)>, guild: i64, bot: i64) -> bool {
    exists|i: int| 0 <= i < s.len() && s[i] == (guild, bot)
}

/// The bots listed for `guild`, in order.
pub open spec fn bots_of(s: Seq<(i64, i64)>, guild: i64) -> Seq<i64>
    decreases s.len(),
{
    if s.len() == 0 {
        Seq::empty()
    } else if s.last().0 == guild {
        bots_of(s.drop_last(), guild).push(s.last().1)
    } else {
        bots_of(s.drop_last(), guild)
    }
}

/// The entries of `s` other than `(guild, bot)`.
pub open spec fn without_bot(s: Seq<(i64, i64)>, guild: i64, bot: i64) -> Seq<(i64, i64)>
    decreases s.len(),
{
    if s.len() == 0 {
        Seq::empty()
    } else if s.last() == (guild, bot) {
        without_bot(s.drop_last(), guild, bot)
    } else {
        without_bot(s.drop_last(), guild, bot).push(s.last())
    }
}

/// No (guild, bot) entry occurs twice in `s`.
pub open spec fn unique_bots(s: Seq<(i64, i64)>) -> bool {
    forall|i: int, j: int| 0 <= i < j < s.len() ==> s[i] != s[j]
}

proof fn lemma_without_bot_only(s: Seq<(i64, i64)>, guild: i64, bot: i64, x: (i64, i64))
    ensures
        without_bot(s, guild, bot).contains(x) ==> s.contains(x),
    decreases s.len(),
{
    if s.len() > 0 {
        lemma_without_bot_only(s.drop_last(), guild, bot, x);
        let w = without_bot(s.drop_last(), guild, bot);
        if without_bot(s, guild, bot).contains(x) {
            if s.last() != (guild, bot) && x == s.last() {
                assert(s[s.len() - 1] == x);
            } else {
                if s.last() != (guild, bot) {
                    let k = choose|k: int| 0 <= k < w.len() + 1 && w.push(s.last())[k] == x;
                    assert(w[k] == x);
                }
                assert(w.contains(x));
                let j = choose|j: int| 0 <= j < s.drop_last().len() && s.drop_last()[j] == x;
                assert(s[j] == x);
            }
        }
    }
}

proof fn lemma_without_bot_unique(s: Seq<(i64, i64)>, guild: i64, bot: i64)
    requires
        unique_bots(s),
    ensures
        unique_bots(without_bot(s, guild, bot)),
    decreases s.len(),
{
    if s.len() > 0 {
        let d = s.drop_last();
        assert(unique_bots(d)) by {
            assert forall|i: int, j: int| 0 <= i < j < d.len() implies d[i] != d[j] by {
                assert(d[i] == s[i] && d[j] == s[j]);
            }
        }
        lemma_without_bot_unique(d, guild, bot);
        let w = without_bot(d, guild, bot);
        let x = s.last();
        if x != (guild, bot) {
            lemma_without_bot_only(d, guild, bot, x);
            assert(!d.contains(x)) by {
                if d.contains(x) {
                    let j = choose|j: int| 0 <= j < d.len() && d[j] == x;
                    assert(s[j] == d[j]);
                    assert(s[s.len() - 1] == x);
                }
            }
            let p = w.push(x);
            assert forall|i: int, j: int| 0 <= i < j < p.len() implies p[i] != p[j] by {
                if j == w.len() {
                    assert(p[i] == w[i]);
                    if p[i] == x {
                        assert(w.contains(x));
                    }
                } else {
                    assert(p[i] == w[i] && p[j] == w[j]);
                }
            }
        }
    }
}

/// The bots of each guild whose messages are read aloud, as (guild, bot) entries.
pub struct BotWhitelist {
    entries: Vec<(i64, i64)>,
}

impl View for BotWhitelist {
    type V = Seq<(i64, i64)>;

    /// The entries, in the order they were added.
    closed spec fn view(&self) -> Seq<(i64, i64)> {
        self.entries@
    }
}

impl BotWhitelist {
    /// No (guild, bot) entry is stored twice.
    #[verifier::type_invariant]
    spec fn well_formed(&self) -> bool {
        unique_bots(self.entries@)
    }

    /// The entries, in the order they were added; none occurs twice.
    pub fn entries(&self) -> (r: &Vec<(i64, i64)>)
        ensures
            r@ == self@,
            unique_bots(self@),
    {
        proof {
            use_type_invariant(self);
        }
        &self.entries
    }

    /// An empty whitelist.
    pub fn new() -> (w: Self)
        ensures
            w@ == Seq::<(i64, i64)>::empty(),
    {
        BotWhitelist { entries: Vec::new() }
    }

    /// Whether `bot` is listed in `guild`.
    pub fn contains(&self, guild: i64, bot: i64) -> (b: bool)
        ensures
            b == has_bot(self@, guild, bot),
    {
        let mut i: usize = 0;
        while i < self.entries.len()
            invariant
                i <= self.entries.len(),
                forall|k: int| 0 <= k < i ==> self.entries@[k] != (guild, bot),
            decreases self.entries.len() - i,
        {
            if self.entries[i].0 == guild && self.entries[i].1 == bot {
                assert(self.entries@[i as int] == (guild, bot));
                return true;
            }
            i = i + 1;
        }
        false
    }

    /// Lists `bot` in `guild`, unless it is listed already; says whether it was added.
    pub fn add(&mut self, guild: i64, bot: i64) -> (added: bool)
        ensures
            added == !has_bot(old(self)@, guild, bot),
            added ==> final(self)@ == old(self)@.push((guild, bot)),
            !added ==> final(self)@ == old(self)@,
            unique_bots(final(self)@),
    {
        proof {
            use_type_invariant(&*self);
        }
        if self.contains(guild, bot) {
            return false;
        }
        let mut v: Vec<(i64, i64)> = Vec::new();
        std::mem::swap(&mut v, &mut self.entries);
        let ghost before = v@;
        v.push((guild, bot));
        assert forall|i: int, j: int| 0 <= i < j < v@.len() implies v@[i] != v@[j] by {
            assert(v@[i] == before[i]);
            if j < before.len() {
                assert(v@[j] == before[j]);
            } else if v@[i] == v@[j] {
                assert(before[i] == (guild, bot));
            }
        }
        self.entries = v;
        true
    }

    /// Takes `bot` off the list of `guild`; says whether it was listed.
    pub fn remove(&mut self, guild: i64, bot: i64) -> (removed: bool)
        ensures
            removed == has_bot(old(self)@, guild, bot),
            final(self)@ == without_bot(old(self)@, guild, bot),
            unique_bots(final(self)@),
    {
        proof {
            use_type_invariant(&*self);
        }
        let found = self.contains(guild, bot);
        let mut kept: Vec<(i64, i64)> = Vec::new();
        let mut i: usize = 0;
        while i < self.entries.len()
            invariant
                i <= self.entries.len(),
                kept@ == without_bot(self.entries@.take(i as int), guild, bot),
            decreases self.entries.len() - i,
        {
            let e = self.entries[i];
            assert(self.entries@.take(i + 1).drop_last() =~= self.entries@.take(i as int));
            assert(self.entries@.take(i + 1).last() == e);
            if !(e.0 == guild && e.1 == bot) {
                kept.push(e);
            }
            i = i + 1;
        }
        assert(self.entries@.take(self.entries.len() as int) =~= self.entries@);
        proof {
            lemma_without_bot_unique(self.entries@, guild, bot);
        }
        self.entries = kept;
        found
    }

    /// The bots listed in `guild`, in the order they were added.
    pub fn bots_in(&self, guild: i64) -> (r: Vec<i64>)
        ensures
            r@ == bots_of(self@, guild),
    {
        let mut r: Vec<i64> = Vec::new();
        let mut i: usize = 0;
        while i < self.entries.len()
            invariant
                i <= self.entries.len(),
                r@ == bots_of(self.entries@.take(i as int), guild),
            decreases self.entries.len() - i,
        {
            let e = self.entries[i];
            assert(self.entries@.take(i + 1).drop_last() =~= self.entries@.take(i as int));
            assert(self.entries@.take(i + 1).last() == e);
            if e.0 == guild {
                r.push(e.1);
            }
            i = i + 1;
        }
        assert(self.entries@.take(self.entries.len() as int) =~= self.entries@);
        r
    }
}

proof fn lemma_without_bot_drops(s: Seq<(i64, i64)>, guild: i64, bot: i64)
    ensures
        !has_bot(without_bot(s, guild, bot), guild, bot),
    decreases s.len(),
{
    if s.len() > 0 {
        lemma_without_bot_drops(s.drop_last(), guild, bot);
        let w = without_bot(s.drop_last(), guild, bot);
        if s.last() != (guild, bot) {
            if has_bot(w.push(s.last()), guild, bot) {
                let i = choose|i: int| 0 <= i < w.len() + 1 && w.push(s.last())[i] == (guild, bot);
                assert(w[i] == (guild, bot));
            }
        }
    }
}

/// A bot that was added is listed, in exactly one entry; after it is removed it is not,
/// whatever came before.
pub proof fn law_whitelist_add_then_remove(s: Seq<(i64, i64)>, guild: i64, bot: i64)
    requires
        unique_bots(s),
        !has_bot(s, guild, bot),
    ensures
        has_bot(s.push((guild, bot)), guild, bot),
        unique_bots(s.push((guild, bot))),
        forall|i: int, j: int|
            0 <= i < s.len() + 1 && 0 <= j < s.len() + 1 && s.push((guild, bot))[i] == (guild, bot)
                && s.push((guild, bot))[j] == (guild, bot) ==> i == j,
        !has_bot(without_bot(s, guild, bot), guild, bot),
{
    let p = s.push((guild, bot));
    assert forall|i: int, j: int| 0 <= i < j < p.len() implies p[i] != p[j] by {
        assert(p[i] == s[i]);
        if j < s.len() {
            assert(p[j] == s[j]);
        } else if p[i] == p[j] {
            assert(s[i] == (guild, bot));
        }
    }
    assert(s.push((guild, bot))[s.len() as int] == (guild, bot));
    lemma_without_bot_drops(s, guild, bot);
}

/// What becomes of a request to list or unlist a bot.
pub enum WhitelistReply {
    /// The user named is no bot.
    NotABot(String),
    /// The reply, once the list was (or was not) changed.
    Done(String),
}

/// The reply to a request to list a user named `name` that is (or is not) a bot, once
/// the list was (or was not, being there already) changed.
pub fn whitelist_add_reply(is_bot: bool, added: bool, name: &str) -> (r: WhitelistReply)
    ensures
        !is_bot ==> (r matches WhitelistReply::NotABot(m) && m@ == "指定されたユーザーはbotではありません。"@),
        is_bot ==> (r matches WhitelistReply::Done(m) && m@ == (if added {
            "`"@ + name@ + "`"@ + "をホワイトリストに登録しました。"@
        } else {
            "`"@ + name@ + "`"@ + "は既に登録されています。"@
        })),
{
    if !is_bot {
        return WhitelistReply::NotABot(String::from_str("指定されたユーザーはbotではありません。"));
    }
    if added {
        WhitelistReply::Done(quoted(name, "をホワイトリストに登録しました。"))
    } else {
        WhitelistReply::Done(quoted(name, "は既に登録されています。"))
    }
}

/// The reply to a request to unlist a bot named `name`: whether it was listed.
pub fn whitelist_remove_reply(removed: bool, name: &str) -> (r: String)
    ensures
        r@ == "`"@ + name@ + "`"@ + (if removed {
            "をホワイトリストから削除しました。"@
        } else {
            "は登録されていません。"@
        }),
{
    if removed {
        quoted(name, "をホワイトリストから削除しました。")
    } else {
        quoted(name, "は登録されていません。")
    }
}

} // verus!
