use vstd::prelude::*;
use std::collections::HashMap;
use crate::text::{parse_u64, parse_u64_spec};
use crate::registry::{VoiceContextInfo, VoiceContextView, VoiceRegistry};
use crate::voice::{channel_mention_text, channel_mention};
use crate::autoconnect::contains_id;

verus! {

broadcast use vstd::std_specs::hash::group_hash_axioms;

// ---------------------------------------------------------------------------
// Joining and leaving on command
// ---------------------------------------------------------------------------

/// What the command that brings the bot into a voice channel does.
pub enum ConnectDecision {
    /// The member is in no voice channel: the warning.
    NeedVoiceChannel(String),
    /// The bot is already in a voice channel: ask whether to move, with the question.
    AskToMove(String),
    /// Join the member's voice channel.
    Join(u64),
}

/// Decides the command that brings the bot into the member's voice channel, given the
/// member's channel and, where the bot has a call in the guild, the channel it is in.
pub fn connect_decision(member_channel: Option<u64>, bot_call: Option<Option<u64>>) -> (d: ConnectDecision)
    ensures
        match member_channel {
            None => d matches ConnectDecision::NeedVoiceChannel(m) && m@
                == "このコマンドを使用するには先にVCに参加してください。"@,
            Some(vc) => match bot_call {
                Some(Some(_)) => d matches ConnectDecision::AskToMove(m) && m@
                    == "別のボイスチャンネルに既に参加しています。移動しますか？"@,
                _ => d == ConnectDecision::Join(vc),
            },
        },
{
    match member_channel {
        None => ConnectDecision::NeedVoiceChannel(
            String::from_str("このコマンドを使用するには先にVCに参加してください。"),
        ),
        Some(vc) => match bot_call {
            Some(Some(_)) => ConnectDecision::AskToMove(
                String::from_str("別のボイスチャンネルに既に参加しています。移動しますか？"),
            ),
            _ => ConnectDecision::Join(vc),
        },
    }
}

/// The reply once the question whether to move was answered (`true`) or timed out.
pub fn move_reply(moved: bool) -> (r: String)
    ensures
        r@ == (if moved {
            "ボイスチャンネルを移動しました。"@
        } else {
            "タイムアウトしました。"@
        }),
{
    if moved {
        String::from_str("ボイスチャンネルを移動しました。")
    } else {
        String::from_str("タイムアウトしました。")
    }
}

/// The notice after the bot joined voice channel `vc` from a command given in `command`:
/// the title, the channel that notices go to, and the channels read.
pub struct ConnectNotice {
    pub title: String,
    pub notify: String,
    pub reading: String,
}

/// The notice after the bot joined voice channel `vc` from a command given in `command`.
pub fn connect_notice(vc: u64, command: u64) -> (n: ConnectNotice)
    ensures
        n.title@ == channel_mention_text(vc) + "に接続しました。"@,
        n.notify@ == channel_mention_text(command),
        n.reading@ == channel_mention_text(command) + " "@ + channel_mention_text(vc),
{
    let mut title = channel_mention(vc);
    title.append("に接続しました。");
    let notify = channel_mention(command);
    let mut reading = channel_mention(command);
    reading.append(" ");
    let v = channel_mention(vc);
    reading.append(v.as_str());
    ConnectNotice { title, notify, reading }
}

/// What the command that makes the bot leave does.
pub enum DisconnectDecision {
    /// The member is not in the bot's voice channel: the warning.
    NotSameChannel(String),
    /// The bot has a call but is in no channel: the warning.
    BotNotConnected(String),
    /// Leave the voice channel.
    Leave,
    /// The bot has no call in the guild: nothing is done.
    Nothing,
}

/// Decides the command that makes the bot leave, given the member's voice channel and,
/// where the bot has a call in the guild, the channel it is in.
pub fn disconnect_decision(member_channel: Option<u64>, bot_call: Option<Option<u64>>) -> (d: DisconnectDecision)
    ensures
        match member_channel {
            None => d matches DisconnectDecision::NotSameChannel(m) && m@
                == "botと同じVCに参加していないので、使用できません。"@,
            Some(vc) => match bot_call {
                None => d is Nothing,
                Some(None) => d matches DisconnectDecision::BotNotConnected(m) && m@
                    == "botがVCに参加していません。"@,
                Some(Some(b)) => if b == vc {
                    d is Leave
                } else {
                    d matches DisconnectDecision::NotSameChannel(m) && m@
                        == "botと同じVCに参加していないので、使用できません。"@
                },
            },
        },
{
    match member_channel {
        None => DisconnectDecision::NotSameChannel(
            String::from_str("botと同じVCに参加していないので、使用できません。"),
        ),
        Some(vc) => match bot_call {
            None => DisconnectDecision::Nothing,
            Some(None) => DisconnectDecision::BotNotConnected(
                String::from_str("botがVCに参加していません。"),
            ),
            Some(Some(b)) => if b == vc {
                DisconnectDecision::Leave
            } else {
                DisconnectDecision::NotSameChannel(
                    String::from_str("botと同じVCに参加していないので、使用できません。"),
                )
            },
        },
    }
}

// ---------------------------------------------------------------------------
// The bot's own voice state
// ---------------------------------------------------------------------------

/// The voice channel whose context is forgotten after an update of the bot's own voice
/// state: the one it was in, when it is now in none (within a guild).
pub fn channel_left_by_bot(old_channel: Option<u64>, new_channel: Option<u64>, in_guild: bool) -> (r: Option<u64>)
    ensures
        r == (if new_channel is None && in_guild {
            old_channel
        } else {
            None
        }),
{
    if new_channel.is_none() && in_guild {
        old_channel
    } else {
        None
    }
}

/// Applies an update of the bot's own voice state to the registry: when it left its
/// channel, that channel's context is forgotten.
pub fn forget_channel_left_by_bot(
    registry: &mut VoiceRegistry,
    old_channel: Option<u64>,
    new_channel: Option<u64>,
    in_guild: bool,
) -> (left: Option<u64>)
    ensures
        left == (if new_channel is None && in_guild {
            old_channel
        } else {
            None
        }),
        match left {
            Some(vc) => final(registry)@ == old(registry)@.remove(vc),
            None => final(registry)@ == old(registry)@,
        },
{
    let left = channel_left_by_bot(old_channel, new_channel, in_guild);
    if let Some(vc) = left {
        registry.unlink(vc);
    }
    left
}

/// The name the bot is shown by: its nickname in the guild, or else its user name.
pub fn bot_display_name(nick: Option<String>, name: String) -> (r: String)
    ensures
        r@ == match nick {
            Some(n) => n@,
            None => name@,
        },
{
    match nick {
        Some(n) => n,
        None => name,
    }
}

/// What is read aloud when someone (or the bot) joined: `<name>が参加しました`.
pub fn joined_speech(name: &str) -> (r: String)
    ensures
        r@ == name@ + "が参加しました"@,
{
    let mut s = String::from_str(name);
    s.append("が参加しました");
    s
}

/// What is read aloud when the bot reconnected after a restart: `<name>が接続しました`.
pub fn reconnected_speech(name: &str) -> (r: String)
    ensures
        r@ == name@ + "が接続しました"@,
{
    let mut s = String::from_str(name);
    s.append("が接続しました");
    s
}

/// The description of the notice after the bot joined an auto-connected voice channel.
pub fn auto_join_description(vc: u64) -> (r: String)
    ensures
        r@ == channel_mention_text(vc) + "に接続しました"@,
{
    let mut s = channel_mention(vc);
    s.append("に接続しました");
    s
}

// ---------------------------------------------------------------------------
// Leaving when nobody is left
// ---------------------------------------------------------------------------

/// The disconnects waiting to happen, by voice channel, each with the handle that stops it.
pub struct PendingDisconnects<H> {
    pub handles: HashMap<u64, H>,
}

impl<H> PendingDisconnects<H> {
    /// The voice channels with a disconnect waiting.
    pub open spec fn pending(&self) -> Set<u64> {
        self.handles@.dom()
    }

    /// No disconnect is waiting.
    pub fn new() -> (p: Self)
        ensures
            p.pending() == Set::<u64>::empty(),
    {
        let p = PendingDisconnects { handles: HashMap::new() };
        assert(p.pending() =~= Set::<u64>::empty());
        p
    }

    /// Whether a disconnect of `vc` is to be started: only where none is waiting yet.
    pub fn needs_schedule(&self, vc: u64) -> (b: bool)
        ensures
            b == !self.pending().contains(vc),
    {
        !self.handles.contains_key(&vc)
    }

    /// Records the disconnect of `vc` that was started, with its handle.
    pub fn record(&mut self, vc: u64, handle: H)
        ensures
            final(self).handles@ == old(self).handles@.insert(vc, handle),
            final(self).pending() == old(self).pending().insert(vc),
    {
        self.handles.insert(vc, handle);
    }

    /// Calls off the disconnect of `vc`, handing back its handle to stop it, if one waits.
    pub fn cancel(&mut self, vc: u64) -> (h: Option<H>)
        ensures
            final(self).handles@ == old(self).handles@.remove(vc),
            final(self).pending() == old(self).pending().remove(vc),
            h == (if old(self).handles@.contains_key(vc) {
                Some(old(self).handles@[vc])
            } else {
                None
            }),
    {
        self.handles.remove(&vc)
    }

    /// Forgets the disconnect of `vc` once its wait is over.
    pub fn finish(&mut self, vc: u64)
        ensures
            final(self).handles@ == old(self).handles@.remove(vc),
            final(self).pending() == old(self).pending().remove(vc),
    {
        self.handles.remove(&vc);
    }
}

/// Whether the bot leaves once the wait is over: nobody but bots is left in its channel.
pub fn leaves_after_wait(humans: usize) -> (b: bool)
    ensures
        b == (humans == 0),
{
    humans == 0
}

/// Whether a disconnect is to be scheduled after a member's update: the bot may have been
/// left alone, and nobody but bots is in its channel.
pub fn schedule_needed(may_be_alone: bool, humans: usize) -> (b: bool)
    ensures
        b == (may_be_alone && humans == 0),
{
    may_be_alone && humans == 0
}

/// At most one disconnect waits per voice channel: starting one where one waits changes
/// nothing, and calling it off leaves none waiting for that channel.
pub proof fn law_one_pending_disconnect_per_channel(pending: Set<u64>, vc: u64)
    ensures
        pending.contains(vc) ==> pending.insert(vc) == pending,
        !pending.insert(vc).remove(vc).contains(vc),
        !pending.remove(vc).contains(vc),
{
    if pending.contains(vc) {
        assert(pending.insert(vc) =~= pending);
    }
}

// ---------------------------------------------------------------------------
// Restarting
// ---------------------------------------------------------------------------

/// A connection kept over a restart: the guild, the voice channel, and its context.
pub struct PersistedVoiceEntry {
    pub guild_id: u64,
    pub voice_channel_id: u64,
    pub context: VoiceContextInfo,
}

/// The channels of `s`, each once, in the order they first occur.
pub open spec fn first_occurrences(s: Seq<u64>) -> Seq<u64>
    decreases s.len(),
{
    if s.len() == 0 {
        Seq::empty()
    } else if s.drop_last().contains(s.last()) {
        first_occurrences(s.drop_last())
    } else {
        first_occurrences(s.drop_last()).push(s.last())
    }
}

proof fn lemma_first_occurrences_contains(s: Seq<u64>, x: u64)
    ensures
        first_occurrences(s).contains(x) == s.contains(x),
    decreases s.len(),
{
    if s.len() > 0 {
        lemma_first_occurrences_contains(s.drop_last(), x);
        assert(s =~= s.drop_last().push(s.last()));
        if s.contains(x) && !s.drop_last().contains(x) {
            assert(x == s.last());
        }
        if s.drop_last().contains(x) {
            let i = choose|i: int| 0 <= i < s.drop_last().len() && s.drop_last()[i] == x;
            assert(s[i] == x);
        }
        if !s.drop_last().contains(s.last()) {
            let f = first_occurrences(s.drop_last());
            assert(f.push(s.last())[f.len() as int] == s.last());
            if f.contains(x) {
                let i = choose|i: int| 0 <= i < f.len() && f[i] == x;
                assert(f.push(s.last())[i] == x);
            }
            if f.push(s.last()).contains(x) && x != s.last() {
                let i = choose|i: int| 0 <= i < f.len() + 1 && f.push(s.last())[i] == x;
                assert(f[i] == x);
            }
        }
    }
}

/// The command channels of the connections, each once, in the order they first occur:
/// the channels that are told of a restart.
pub fn notify_channels_once(entries: &Vec<PersistedVoiceEntry>) -> (r: Vec<u64>)
    ensures
        r@ == first_occurrences(entries@.map_values(|e: PersistedVoiceEntry| e.context.command_channel)),
{
    let ghost cs = entries@.map_values(|e: PersistedVoiceEntry| e.context.command_channel);
    let mut r: Vec<u64> = Vec::new();
    let mut i: usize = 0;
    while i < entries.len()
        invariant
            i <= entries.len(),
            cs == entries@.map_values(|e: PersistedVoiceEntry| e.context.command_channel),
            r@ == first_occurrences(cs.take(i as int)),
        decreases entries.len() - i,
    {
        let c = entries[i].context.command_channel;
        let ghost prefix = cs.take(i as int);
        assert(cs.take(i + 1).drop_last() =~= prefix);
        assert(cs.take(i + 1).last() == c);
        proof {
            lemma_first_occurrences_contains(prefix, c);
        }
        let seen = contains_id(&r, c);
        if !seen {
            r.push(c);
        }
        i = i + 1;
    }
    assert(cs.take(entries.len() as int) =~= cs);
    r
}

/// The view of a connection kept over a restart.
pub open spec fn entry_view(e: PersistedVoiceEntry) -> (u64, u64, VoiceContextView) {
    (e.guild_id, e.voice_channel_id, e.context@)
}

/// The connections to keep over a restart, from the bot's calls (guild, and the channel the
/// call is in, if any) and the registry: each call in a channel that has a context.
pub open spec fn kept_connections(calls: Seq<(u64, Option<u64>)>, m: Map<u64, VoiceContextView>) -> Seq<(u64, u64, VoiceContextView)>
    decreases calls.len(),
{
    if calls.len() == 0 {
        Seq::empty()
    } else {
        let rest = kept_connections(calls.drop_last(), m);
        match calls.last().1 {
            Some(vc) => if m.contains_key(vc) {
                rest.push((calls.last().0, vc, m[vc]))
            } else {
                rest
            },
            None => rest,
        }
    }
}

/// The connections to keep over a restart: for each call of the bot (its guild, and the
/// channel it is in, if any) that is in a channel with a context, that guild, channel and
/// a copy of the context, in the order of the calls.
pub fn restart_entries(calls: &Vec<(u64, Option<u64>)>, registry: &VoiceRegistry) -> (r: Vec<PersistedVoiceEntry>)
    ensures
        r@.map_values(|e: PersistedVoiceEntry| entry_view(e)) == kept_connections(calls@, registry@),
{
    let mut r: Vec<PersistedVoiceEntry> = Vec::new();
    let mut i: usize = 0;
    while i < calls.len()
        invariant
            i <= calls.len(),
            r@.map_values(|e: PersistedVoiceEntry| entry_view(e)) == kept_connections(
                calls@.take(i as int),
                registry@,
            ),
        decreases calls.len() - i,
    {
        let (guild, current) = calls[i];
        assert(calls@.take(i + 1).drop_last() =~= calls@.take(i as int));
        assert(calls@.take(i + 1).last() == calls@[i as int]);
        if let Some(vc) = current {
            if let Some(context) = registry.context(vc) {
                let ghost before = r@;
                let e = PersistedVoiceEntry { guild_id: guild, voice_channel_id: vc, context };
                r.push(e);
                assert(r@.map_values(|e: PersistedVoiceEntry| entry_view(e)) =~= before.map_values(
                    |e: PersistedVoiceEntry| entry_view(e),
                ).push(entry_view(e)));
            }
        }
        i = i + 1;
    }
    assert(calls@.take(calls.len() as int) =~= calls@);
    r
}

/// The notice sent to each command channel before a restart.
pub fn restart_notice() -> (r: String)
    ensures
        r@ == "restartコマンドが実行されたのでbotを再起動します。\n再起動後に自動でボイスチャンネルに再接続します。"@,
{
    String::from_str("restartコマンドが実行されたのでbotを再起動します。\n再起動後に自動でボイスチャンネルに再接続します。")
}

/// The notice that a connection kept over a restart was made again.
pub fn reconnect_description(vc: u64) -> (r: String)
    ensures
        r@ == channel_mention_text(vc) + "に再接続しました。"@,
{
    let mut s = channel_mention(vc);
    s.append("に再接続しました。");
    s
}

/// The notice that a connection kept over a restart could not be made again, with the
/// error's text.
pub fn reconnect_failed_description(error: &str) -> (r: String)
    ensures
        r@ == "bot再起動後の自動での再接続に失敗しました。: "@ + error@
            + " \n/vc connectコマンドを使用してbotをVCに参加させてください。"@,
{
    let mut s = String::from_str("bot再起動後の自動での再接続に失敗しました。: ");
    s.append(error);
    s.append(" \n/vc connectコマンドを使用してbotをVCに参加させてください。");
    s
}

/// Whether a connection kept over a restart is made again: only where a member who is not
/// a bot is in the voice channel.
pub fn should_reconnect(humans: usize) -> (b: bool)
    ensures
        b == (humans > 0),
{
    humans > 0
}

/// The notice sent once the bot is ready, where a channel for it is configured.
pub enum StartupNotice {
    /// No channel is configured.
    NotConfigured,
    /// The configured channel is no number.
    Invalid,
    /// Send this text to this channel.
    Send { channel: u64, text: String },
}

/// The notice sent once the bot is ready: to the configured channel (the setting read as a
/// `u64`), saying that the bot named `name` started.
pub fn startup_notice(channel_setting: Option<String>, name: &str) -> (n: StartupNotice)
    ensures
        match channel_setting {
            None => n is NotConfigured,
            Some(c) => match parse_u64_spec(c@) {
                None => n is Invalid,
                Some(id) => n matches StartupNotice::Send { channel, text } && channel == id
                    && text@ == "起動完了: "@ + name@,
            },
        },
{
    match channel_setting {
        None => StartupNotice::NotConfigured,
        Some(c) => match parse_u64(c.as_str()) {
            None => StartupNotice::Invalid,
            Some(id) => {
                let mut text = String::from_str("起動完了: ");
                text.append(name);
                StartupNotice::Send { channel: id, text }
            },
        },
    }
}

/// Whether `user_id` is the developer's: the configured developer id, read as a `u64`,
/// is that id. Without a setting, or with one that is no number, nobody is.
pub fn check_is_developer(user_id: u64, developer_setting: Option<String>) -> (b: bool)
    ensures
        b == match developer_setting {
            Some(s) => parse_u64_spec(s@) == Some(user_id),
            None => false,
        },
{
    match developer_setting {
        Some(s) => match parse_u64(s.as_str()) {
            Some(id) => id == user_id,
            None => false,
        },
        None => false,
    }
}

} // verus!
