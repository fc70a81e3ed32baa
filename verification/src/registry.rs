use vstd::prelude::*;
use std::collections::{HashMap, HashSet};
use vstd::std_specs::iter::IteratorSpec;

verus! {

broadcast use vstd::std_specs::hash::group_hash_axioms;

/// Where the bot, connected to a voice channel, sends its notices and which text channels it
/// reads aloud.
pub struct VoiceContextInfo {
    pub command_channel: u64,
    pub text_channels: HashSet<u64>,
}

/// The abstract view of a connection's context.
pub struct VoiceContextView {
    pub command_channel: u64,
    pub text_channels: Set<u64>,
}

impl View for VoiceContextInfo {
    type V = VoiceContextView;

    open spec fn view(&self) -> VoiceContextView {
        VoiceContextView { command_channel: self.command_channel, text_channels: self.text_channels@ }
    }
}

/// The contexts of the voice channels that the bot is connected to, by voice channel.
pub struct VoiceRegistry {
    pub links: HashMap<u64, VoiceContextInfo>,
}

/// The registry as a map from voice channel to context.
pub open spec fn links_view(m: Map<u64, VoiceContextInfo>) -> Map<u64, VoiceContextView> {
    m.map_values(|i: VoiceContextInfo| i@)
}

impl View for VoiceRegistry {
    type V = Map<u64, VoiceContextView>;

    open spec fn view(&self) -> Map<u64, VoiceContextView> {
        links_view(self.links@)
    }
}

/// A text channel is read aloud through some connection.
pub open spec fn is_target(m: Map<u64, VoiceContextView>, ch: u64) -> bool {
    exists|vc: u64| m.contains_key(vc) && #[trigger] m[vc].text_channels.contains(ch)
}

/// The context that a fresh connection to `vc`, made from `command`, starts with: notices go
/// to `command`, and `command` and the voice channel's own chat are read.
pub open spec fn joined_context(vc: u64, command: u64) -> VoiceContextView {
    VoiceContextView { command_channel: command, text_channels: set![command, vc] }
}

/// The registry after the bot moved from `old` (if anywhere) to `vc`.
pub open spec fn joined(m: Map<u64, VoiceContextView>, old: Option<u64>, vc: u64, command: u64) -> Map<u64, VoiceContextView> {
    let base = match old {
        Some(o) => m.remove(o),
        None => m,
    };
    base.insert(vc, joined_context(vc, command))
}

/// What adding or removing a text channel did.
#[derive(Clone, Copy, PartialEq, Eq, Debug)]
pub enum TargetChange {
    /// The bot has no context for that voice channel.
    NotConnected,
    /// The channel already was (for adding) or was not (for removing) read.
    Unchanged,
    /// The channel was added or removed.
    Changed,
}

/// The registry with `ch` added to the channels read through `vc`.
pub open spec fn with_target(m: Map<u64, VoiceContextView>, vc: u64, ch: u64) -> Map<u64, VoiceContextView> {
    if m.contains_key(vc) {
        m.insert(vc, VoiceContextView { text_channels: m[vc].text_channels.insert(ch), ..m[vc] })
    } else {
        m
    }
}

/// The registry with `ch` no longer read through `vc`.
pub open spec fn without_target(m: Map<u64, VoiceContextView>, vc: u64, ch: u64) -> Map<u64, VoiceContextView> {
    if m.contains_key(vc) {
        m.insert(vc, VoiceContextView { text_channels: m[vc].text_channels.remove(ch), ..m[vc] })
    } else {
        m
    }
}

proof fn lemma_links_view_insert(m: Map<u64, VoiceContextInfo>, k: u64, v: VoiceContextInfo)
    ensures
        links_view(m.insert(k, v)) == links_view(m).insert(k, v@),
{
    assert(links_view(m.insert(k, v)) =~= links_view(m).insert(k, v@));
}

proof fn lemma_links_view_remove(m: Map<u64, VoiceContextInfo>, k: u64)
    ensures
        links_view(m.remove(k)) == links_view(m).remove(k),
{
    assert(links_view(m.remove(k)) =~= links_view(m).remove(k));
}

impl VoiceRegistry {
    /// A registry with no connection.
    pub fn new() -> (r: Self)
        ensures
            r@ == Map::<u64, VoiceContextView>::empty(),
    {
        let r = VoiceRegistry { links: HashMap::new() };
        assert(r@ =~= Map::<u64, VoiceContextView>::empty());
        r
    }

    /// Records the context of a connection to `vc`, replacing any earlier one.
    pub fn link(&mut self, vc: u64, info: VoiceContextInfo)
        ensures
            final(self)@ == old(self)@.insert(vc, info@),
    {
        let ghost m = self.links@;
        self.links.insert(vc, info);
        proof {
            lemma_links_view_insert(m, vc, info);
        }
    }

    /// Forgets the connection to `vc`, and gives back its context.
    pub fn unlink(&mut self, vc: u64) -> (r: Option<VoiceContextInfo>)
        ensures
            final(self)@ == old(self)@.remove(vc),
            match r {
                Some(i) => old(self)@.contains_key(vc) && i@ == old(self)@[vc],
                None => !old(self)@.contains_key(vc),
            },
    {
        let ghost m = self.links@;
        let r = self.links.remove(&vc);
        proof {
            lemma_links_view_remove(m, vc);
        }
        r
    }

    /// Records that the bot moved from `old` (if it was connected anywhere) to `vc` at a
    /// command given in `command`.
    pub fn join(&mut self, previous: Option<u64>, vc: u64, command: u64)
        ensures
            final(self)@ == joined(old(self)@, previous, vc, command),
    {
        if let Some(o) = previous {
            self.unlink(o);
        }
        let mut text_channels: HashSet<u64> = HashSet::new();
        text_channels.insert(command);
        text_channels.insert(vc);
        assert(text_channels@ =~= set![command, vc]);
        self.link(vc, VoiceContextInfo { command_channel: command, text_channels });
    }

    /// Whether the text channel `ch` is read aloud through any connection.
    pub fn is_reading_target(&self, ch: u64) -> (b: bool)
        ensures
            b == is_target(self@, ch),
    {
        let ghost all = vstd::std_specs::hash::spec_values_iter(&self.links).remaining();
        let mut found = false;
        for info in it: self.links.values()
            invariant
                it.seq() == all,
                all.unref().to_set() == self.links@.values(),
                found == exists|j: int| 0 <= j < it.index() && (#[trigger] all[j]).text_channels@.contains(ch),
        {
            if info.text_channels.contains(&ch) {
                found = true;
            }
        }
        proof {
            if found {
                let j = choose|j: int| 0 <= j < all.len() && (#[trigger] all[j]).text_channels@.contains(ch);
                let v = *all[j];
                assert(all.unref()[j] == v);
                assert(all.unref().contains(v));
                assert(self.links@.values().contains(v));
                let vc = choose|vc: u64| self.links@.contains_key(vc) && self.links@[vc] == v;
                assert(self@[vc].text_channels.contains(ch));
            }
            if is_target(self@, ch) {
                let vc = choose|vc: u64| self@.contains_key(vc) && #[trigger] self@[vc].text_channels.contains(ch);
                let v = self.links@[vc];
                assert(self.links@.values().contains(v));
                assert(all.unref().to_set().contains(v));
                let j = choose|j: int| 0 <= j < all.unref().len() && all.unref()[j] == v;
                assert(*all[j] == v);
            }
        }
        found
    }

    /// The channel that notices about the connection to `vc` go to.
    pub fn command_channel(&self, vc: u64) -> (r: Option<u64>)
        ensures
            match r {
                Some(c) => self@.contains_key(vc) && self@[vc].command_channel == c,
                None => !self@.contains_key(vc),
            },
    {
        match self.links.get(&vc) {
            Some(info) => Some(info.command_channel),
            None => None,
        }
    }

    /// Adds `ch` to the text channels read through the connection to `vc`.
    pub fn add_target(&mut self, vc: u64, ch: u64) -> (r: TargetChange)
        ensures
            final(self)@ == with_target(old(self)@, vc, ch),
            r == (if !old(self)@.contains_key(vc) {
                TargetChange::NotConnected
            } else if old(self)@[vc].text_channels.contains(ch) {
                TargetChange::Unchanged
            } else {
                TargetChange::Changed
            }),
    {
        match self.unlink(vc) {
            None => TargetChange::NotConnected,
            Some(info) => {
                let mut info = info;
                let ghost before = info@;
                let r = if info.text_channels.contains(&ch) {
                    TargetChange::Unchanged
                } else {
                    info.text_channels.insert(ch);
                    TargetChange::Changed
                };
                assert(info.text_channels@ == before.text_channels.insert(ch));
                self.link(vc, info);
                proof {
                    assert(old(self)@.remove(vc).insert(vc, info@) =~= with_target(old(self)@, vc, ch));
                }
                r
            },
        }
    }

    /// Removes `ch` from the text channels read through the connection to `vc`.
    pub fn remove_target(&mut self, vc: u64, ch: u64) -> (r: TargetChange)
        ensures
            final(self)@ == without_target(old(self)@, vc, ch),
            r == (if !old(self)@.contains_key(vc) {
                TargetChange::NotConnected
            } else if !old(self)@[vc].text_channels.contains(ch) {
                TargetChange::Unchanged
            } else {
                TargetChange::Changed
            }),
    {
        match self.unlink(vc) {
            None => TargetChange::NotConnected,
            Some(info) => {
                let mut info = info;
                let ghost before = info@;
                let r = if info.text_channels.contains(&ch) {
                    info.text_channels.remove(&ch);
                    TargetChange::Changed
                } else {
                    TargetChange::Unchanged
                };
                assert(info.text_channels@ =~= before.text_channels.remove(ch));
                self.link(vc, info);
                proof {
                    assert(old(self)@.remove(vc).insert(vc, info@) =~= without_target(old(self)@, vc, ch));
                }
                r
            },
        }
    }

    /// The text channels read through the connection to `vc`, each once, in no given order.
    pub fn targets(&self, vc: u64) -> (r: Option<Vec<u64>>)
        ensures
            match r {
                Some(v) => self@.contains_key(vc) && v@.to_set() == self@[vc].text_channels
                    && v@.no_duplicates(),
                None => !self@.contains_key(vc),
            },
    {
        match self.links.get(&vc) {
            None => None,
            Some(info) => {
                let ghost all = vstd::std_specs::hash::spec_hash_keys_iter(&info.text_channels).remaining();
                let mut v: Vec<u64> = Vec::new();
                for c in it: info.text_channels.iter()
                    invariant
                        it.seq() == all,
                        all.unref().to_set() == info.text_channels@,
                        all.no_duplicates(),
                        v@ == it.seq().take(it.index() as int).map_values(|r: &u64| *r),
                {
                    v.push(*c);
                    assert(it.seq().take(it.index() + 1).map_values(|r: &u64| *r) =~= it.seq().take(
                        it.index() as int,
                    ).map_values(|r: &u64| *r).push(*c));
                }
                assert(v@ =~= all.unref());
                Some(v)
            },
        }
    }

    /// A copy of the context of the connection to `vc`, if there is one.
    pub fn context(&self, vc: u64) -> (r: Option<VoiceContextInfo>)
        ensures
            match r {
                Some(c) => self@.contains_key(vc) && c@ == self@[vc],
                None => !self@.contains_key(vc),
            },
    {
        let command = match self.command_channel(vc) {
            Some(c) => c,
            None => return None,
        };
        let list = match self.targets(vc) {
            Some(v) => v,
            None => return None,
        };
        let mut set: HashSet<u64> = HashSet::new();
        let mut i: usize = 0;
        while i < list.len()
            invariant
                i <= list.len(),
                set@ == list@.take(i as int).to_set(),
            decreases list.len() - i,
        {
            set.insert(list[i]);
            assert(list@.take(i + 1) =~= list@.take(i as int).push(list@[i as int]));
            proof {
                list@.take(i as int).lemma_push_to_set_commute(list@[i as int]);
            }
            i = i + 1;
        }
        assert(list@.take(list.len() as int) =~= list@);
        let info = VoiceContextInfo { command_channel: command, text_channels: set };
        assert(info@ == self@[vc]);
        Some(info)
    }
}

/// After the bot joins a channel from a command, the chat of that channel and the channel of
/// the command are read aloud, notices go to the command's channel, and the channel it left
/// is forgotten.
pub proof fn law_join_reads_command_and_voice_chat(m: Map<u64, VoiceContextView>, old: Option<u64>, vc: u64, command: u64)
    ensures
        is_target(joined(m, old, vc, command), command),
        is_target(joined(m, old, vc, command), vc),
        joined(m, old, vc, command)[vc].command_channel == command,
        forall|o: u64| old == Some(o) && o != vc ==> !joined(m, old, vc, command).contains_key(o),
{
    let j = joined(m, old, vc, command);
    assert(j[vc].text_channels.contains(command));
    assert(j[vc].text_channels.contains(vc));
}

/// A channel that was added is read aloud; removing it again stops it from being read
/// through that connection; neither touches other connections or the notice channel.
pub proof fn law_add_then_remove_target(m: Map<u64, VoiceContextView>, vc: u64, other: u64, ch: u64)
    requires
        m.contains_key(vc),
    ensures
        is_target(with_target(m, vc, ch), ch),
        !without_target(with_target(m, vc, ch), vc, ch)[vc].text_channels.contains(ch),
        with_target(m, vc, ch)[vc].command_channel == m[vc].command_channel,
        other != vc && m.contains_key(other) ==> with_target(m, vc, ch)[other] == m[other]
            && without_target(m, vc, ch)[other] == m[other],
{
    assert(with_target(m, vc, ch)[vc].text_channels.contains(ch));
}

/// The reply to adding (`adding`) or removing a text channel, mentioned as `mention`, by
/// what the change did.
pub open spec fn target_change_text(change: TargetChange, mention: Seq<char>, adding: bool) -> Seq<char> {
    match change {
        TargetChange::NotConnected => "botの接続情報が見付かりませんでした。"@,
        TargetChange::Unchanged => if adding {
            mention + "は既に読み上げ対象です。"@
        } else {
            mention + "は読み上げ対象ではありません。"@
        },
        TargetChange::Changed => if adding {
            mention + "を読み上げ対象に追加しました。"@
        } else {
            mention + "を読み上げ対象から削除しました。"@
        },
    }
}

/// The reply to adding (`adding`) or removing a text channel, by what the change did.
pub fn target_change_reply(change: TargetChange, mention: &str, adding: bool) -> (r: String)
    ensures
        r@ == target_change_text(change, mention@, adding),
{
    match change {
        TargetChange::NotConnected => String::from_str("botの接続情報が見付かりませんでした。"),
        TargetChange::Unchanged => {
            let mut s = String::from_str(mention);
            if adding {
                s.append("は既に読み上げ対象です。");
            } else {
                s.append("は読み上げ対象ではありません。");
            }
            s
        },
        TargetChange::Changed => {
            let mut s = String::from_str(mention);
            if adding {
                s.append("を読み上げ対象に追加しました。");
            } else {
                s.append("を読み上げ対象から削除しました。");
            }
            s
        },
    }
}

} // verus!
