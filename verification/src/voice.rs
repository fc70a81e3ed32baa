use vstd::prelude::*;
use crate::text::{dec, push_decimal, string_views, joined, join_strings};
use crate::settings::GuildSettings;

verus! {

// ---------------------------------------------------------------------------
// Names of channels
// ---------------------------------------------------------------------------

/// The views of a table of ids and names.
pub open spec fn name_table(t: Seq<(u64, String)>) -> Seq<(u64, Seq<char>)> {
    t.map_values(|p: (u64, String)| (p.0, p.1@))
}

/// The name that the first entry for `id` gives.
pub open spec fn name_in(t: Seq<(u64, Seq<char>)>, id: u64) -> Option<Seq<char>>
    decreases t.len(),
{
    if t.len() == 0 {
        None
    } else if t[0].0 == id {
        Some(t[0].1)
    } else {
        name_in(t.drop_first(), id)
    }
}

/// Looks up the name of `id` in a table of ids and names.
pub fn lookup_name(t: &Vec<(u64, String)>, id: u64) -> (r: Option<String>)
    ensures
        match name_in(name_table(t@), id) {
            Some(n) => r matches Some(x) && x@ == n,
            None => r is None,
        },
{
    let ghost tv = name_table(t@);
    let mut i: usize = 0;
    assert(tv.skip(0) == tv);
    while i < t.len()
        invariant
            i <= t.len(),
            tv == name_table(t@),
            name_in(tv, id) == name_in(tv.skip(i as int), id),
        decreases t.len() - i,
    {
        assert(tv.skip(i as int)[0] == (t@[i as int].0, t@[i as int].1@));
        assert(tv.skip(i as int).drop_first() =~= tv.skip(i + 1));
        if t[i].0 == id {
            return Some(t[i].1.clone());
        }
        i = i + 1;
    }
    None
}

/// The name of a channel of the guild, or the word for an unknown channel.
pub open spec fn channel_name_text(t: Seq<(u64, Seq<char>)>, id: u64) -> Seq<char> {
    match name_in(t, id) {
        Some(n) => n,
        None => "不明なチャンネル"@,
    }
}

/// The name of a channel of the guild, or the word for an unknown channel.
pub fn channel_name(t: &Vec<(u64, String)>, id: u64) -> (r: String)
    ensures
        r@ == channel_name_text(name_table(t@), id),
{
    match lookup_name(t, id) {
        Some(n) => n,
        None => String::from_str("不明なチャンネル"),
    }
}

/// How a channel is mentioned: `<#id>`.
pub open spec fn channel_mention_text(id: u64) -> Seq<char> {
    "<#"@ + dec(id as nat) + ">"@
}

/// The mention of a channel.
pub fn channel_mention(id: u64) -> (r: String)
    ensures
        r@ == channel_mention_text(id),
{
    let mut s = String::new();
    s.append("<#");
    push_decimal(&mut s, id);
    s.append(">");
    s
}

/// The mentions of channels, separated by spaces.
pub open spec fn channel_list_text(ids: Seq<u64>) -> Seq<char> {
    joined(ids.map_values(|id: u64| channel_mention_text(id)), " "@)
}

/// Lists channels by their mentions, separated by spaces.
pub fn channel_list(ids: &Vec<u64>) -> (r: String)
    ensures
        r@ == channel_list_text(ids@),
{
    let mut parts: Vec<String> = Vec::new();
    let mut i: usize = 0;
    while i < ids.len()
        invariant
            i <= ids.len(),
            string_views(parts@) == ids@.take(i as int).map_values(|id: u64| channel_mention_text(id)),
        decreases ids.len() - i,
    {
        let m = channel_mention(ids[i]);
        let ghost before = parts@;
        parts.push(m);
        assert(string_views(parts@) =~= string_views(before).push(m@));
        assert(ids@.take(i + 1).map_values(|id: u64| channel_mention_text(id)) =~= ids@.take(
            i as int,
        ).map_values(|id: u64| channel_mention_text(id)).push(channel_mention_text(ids@[i as int])));
        i = i + 1;
    }
    assert(ids@.take(ids.len() as int) =~= ids@);
    join_strings(&parts, " ")
}

// ---------------------------------------------------------------------------
// Who is in a voice channel
// ---------------------------------------------------------------------------

/// A voice state of the guild: whose it is, the channel it is in, and whether that member
/// is known to be a bot.
#[derive(Clone, Copy, PartialEq, Eq, Debug)]
pub struct VoiceStateInfo {
    pub user_id: u64,
    pub channel_id: Option<u64>,
    pub is_bot: bool,
}

/// The number of members in channel `ch` that are not known to be bots.
pub open spec fn humans_in(states: Seq<VoiceStateInfo>, ch: u64) -> nat
    decreases states.len(),
{
    if states.len() == 0 {
        0
    } else {
        humans_in(states.drop_last(), ch) + if states.last().channel_id == Some(ch)
            && !states.last().is_bot {
            1nat
        } else {
            0nat
        }
    }
}

/// Counts the members in a voice channel, bots left out.
pub fn count_members_in_vc(states: &Vec<VoiceStateInfo>, ch: u64) -> (n: usize)
    ensures
        n == humans_in(states@, ch),
{
    let mut n: usize = 0;
    let mut i: usize = 0;
    while i < states.len()
        invariant
            i <= states.len(),
            n == humans_in(states@.take(i as int), ch),
            n <= i,
        decreases states.len() - i,
    {
        let s = states[i];
        assert(states@.take(i + 1).drop_last() =~= states@.take(i as int));
        if s.channel_id == Some(ch) && !s.is_bot {
            n = n + 1;
        }
        i = i + 1;
    }
    assert(states@.take(states.len() as int) =~= states@);
    n
}

// ---------------------------------------------------------------------------
// What a change of voice state is announced as
// ---------------------------------------------------------------------------

/// A member's voice state before and after an update.
#[derive(Clone, Copy, PartialEq, Eq, Debug)]
pub struct VoiceChange {
    pub old_channel: Option<u64>,
    pub new_channel: Option<u64>,
    pub old_stream: bool,
    pub new_stream: bool,
    pub old_video: bool,
    pub new_video: bool,
}

/// What is done about a change of a member's voice state while the bot is in a channel.
pub struct VoiceAnnouncement {
    /// The note sent to the developer.
    pub dm: Option<String>,
    /// The text read aloud.
    pub read: Option<String>,
    /// Whether to check if the bot was left alone.
    pub check_auto_disconnect: bool,
    /// Whether a pending disconnect of the bot's channel is called off.
    pub cancel_auto_disconnect: bool,
}

/// The note to the developer: who joined or left which channel of which guild.
pub open spec fn dm_text(
    c: VoiceChange,
    member: Seq<char>,
    user_id: u64,
    guild: Seq<char>,
    names: Seq<(u64, Seq<char>)>,
) -> Option<Seq<char>> {
    match (c.old_channel, c.new_channel) {
        (None, Some(n)) => Some(
            member + " (@"@ + dec(user_id as nat) + ") joined "@ + channel_name_text(names, n)
                + " in "@ + guild,
        ),
        (Some(o), None) => Some(
            member + " (@"@ + dec(user_id as nat) + ") left "@ + channel_name_text(names, o)
                + " in "@ + guild,
        ),
        _ => None,
    }
}

/// `text` when `on` holds.
pub open spec fn when(on: bool, text: Seq<char>) -> Option<Seq<char>> {
    if on {
        Some(text)
    } else {
        None
    }
}

/// What is read aloud about a change, given the bot's channel and the guild's settings.
pub open spec fn read_text(
    c: VoiceChange,
    bot: u64,
    s: GuildSettings,
    m: Seq<char>,
    names: Seq<(u64, Seq<char>)>,
) -> Option<Seq<char>> {
    match (c.old_channel, c.new_channel) {
        (None, Some(n)) => if n == bot {
            when(s.read_vc_join, m + "が参加しました"@)
        } else {
            when(s.read_vc_move, m + "が"@ + channel_name_text(names, n) + "に参加しました"@)
        },
        (Some(o), None) => if o == bot {
            when(s.read_vc_leave, m + "が退出しました"@)
        } else {
            when(s.read_vc_move, m + "が"@ + channel_name_text(names, o) + "から退出しました"@)
        },
        (Some(o), Some(n)) => if o == n {
            if n == bot {
                if !c.old_stream && c.new_stream {
                    when(s.read_vc_stream_start, m + "が配信を開始しました"@)
                } else if c.old_stream && !c.new_stream {
                    when(s.read_vc_stream_stop, m + "が配信を終了しました"@)
                } else if !c.old_video && c.new_video {
                    when(s.read_vc_camera_on, m + "がカメラをオンにしました"@)
                } else if c.old_video && !c.new_video {
                    when(s.read_vc_camera_off, m + "がカメラをオフにしました"@)
                } else {
                    None
                }
            } else {
                None
            }
        } else if n == bot {
            when(s.read_vc_join, m + "が参加しました"@)
        } else if s.read_vc_move {
            Some(m + "が"@ + channel_name_text(names, n) + "に参加しました"@)
        } else {
            when(s.read_vc_leave, m + "が退出しました"@)
        },
        (None, None) => None,
    }
}

/// A member left the bot's channel, or moved to a channel that is not the bot's: the bot
/// may have been left alone.
pub open spec fn may_leave_bot_alone(c: VoiceChange, bot: u64) -> bool {
    match (c.old_channel, c.new_channel) {
        (Some(o), None) => o == bot,
        (Some(o), Some(n)) => o != n && n != bot,
        _ => false,
    }
}

/// `t` ends with `suffix`.
pub open spec fn ends_with(t: Seq<char>, suffix: Seq<char>) -> bool {
    suffix.len() <= t.len() && t.subrange(t.len() - suffix.len(), t.len() as int) == suffix
}

proof fn lemma_ends_with_concat(a: Seq<char>, b: Seq<char>, suffix: Seq<char>)
    requires
        ends_with(b, suffix),
    ensures
        ends_with(a + b, suffix),
{
    assert((a + b).subrange((a + b).len() - suffix.len(), (a + b).len() as int) =~= b.subrange(
        b.len() - suffix.len(),
        b.len() as int,
    ));
}

/// A member leaving a voice channel other than the bot's is read, where moves are read, as
/// the member's name, `が`, the channel's name and `から退出しました`; joining one is read with
/// `に参加しました` in its place.
pub proof fn law_leaving_and_joining_other_channels(
    o: u64,
    bot: u64,
    s: GuildSettings,
    m: Seq<char>,
    names: Seq<(u64, Seq<char>)>,
)
    requires
        o != bot,
        s.read_vc_move,
    ensures
        read_text(
            VoiceChange { old_channel: Some(o), new_channel: None, old_stream: false, new_stream: false, old_video: false, new_video: false },
            bot,
            s,
            m,
            names,
        ) == Some(m + "が"@ + channel_name_text(names, o) + "から退出しました"@),
        read_text(
            VoiceChange { old_channel: None, new_channel: Some(o), old_stream: false, new_stream: false, old_video: false, new_video: false },
            bot,
            s,
            m,
            names,
        ) == Some(m + "が"@ + channel_name_text(names, o) + "に参加しました"@),
{
}

/// A change with no new channel is a leave: whatever is read of it ends with `退出しました`,
/// never with the phrase for joining. A change with no old channel is a join: what is read
/// ends with `参加しました`.
pub proof fn law_leaves_and_joins_are_read_as_such(
    c: VoiceChange,
    bot: u64,
    s: GuildSettings,
    m: Seq<char>,
    names: Seq<(u64, Seq<char>)>,
)
    ensures
        c.new_channel is None ==> match read_text(c, bot, s, m, names) {
            Some(t) => ends_with(t, "退出しました"@),
            None => true,
        },
        c.old_channel is None ==> match read_text(c, bot, s, m, names) {
            Some(t) => ends_with(t, "参加しました"@),
            None => true,
        },
{
    reveal_strlit("退出しました");
    reveal_strlit("が退出しました");
    reveal_strlit("から退出しました");
    reveal_strlit("参加しました");
    reveal_strlit("が参加しました");
    reveal_strlit("に参加しました");
    assert(ends_with("が退出しました"@, "退出しました"@)) by {
        assert("が退出しました"@.subrange(1, 7) =~= "退出しました"@);
    }
    assert(ends_with("から退出しました"@, "退出しました"@)) by {
        assert("から退出しました"@.subrange(2, 8) =~= "退出しました"@);
    }
    assert(ends_with("が参加しました"@, "参加しました"@)) by {
        assert("が参加しました"@.subrange(1, 7) =~= "参加しました"@);
    }
    assert(ends_with("に参加しました"@, "参加しました"@)) by {
        assert("に参加しました"@.subrange(1, 7) =~= "参加しました"@);
    }
    match (c.old_channel, c.new_channel) {
        (None, Some(n)) => {
            if n == bot {
                lemma_ends_with_concat(m, "が参加しました"@, "参加しました"@);
            } else {
                lemma_ends_with_concat(m + "が"@ + channel_name_text(names, n), "に参加しました"@, "参加しました"@);
            }
        },
        (Some(o), None) => {
            if o == bot {
                lemma_ends_with_concat(m, "が退出しました"@, "退出しました"@);
            } else {
                lemma_ends_with_concat(m + "が"@ + channel_name_text(names, o), "から退出しました"@, "退出しました"@);
            }
        },
        _ => {},
    }
}

fn name_msg(m: &str, middle: &str, name: &str, tail: &str) -> (r: String)
    ensures
        r@ == m@ + middle@ + name@ + tail@,
{
    let mut s = String::from_str(m);
    s.append(middle);
    s.append(name);
    s.append(tail);
    s
}

fn member_msg(m: &str, tail: &str) -> (r: String)
    ensures
        r@ == m@ + tail@,
{
    let mut s = String::from_str(m);
    s.append(tail);
    s
}

fn dm_msg(m: &str, user_id: u64, verb: &str, channel: &str, guild: &str) -> (r: String)
    ensures
        r@ == m@ + " (@"@ + dec(user_id as nat) + verb@ + channel@ + " in "@ + guild@,
{
    let mut s = String::from_str(m);
    s.append(" (@");
    push_decimal(&mut s, user_id);
    s.append(verb);
    s.append(channel);
    s.append(" in ");
    s.append(guild);
    s
}

/// Decides what is done about a change of a member's voice state while the bot is in
/// channel `bot`: the note to the developer, the text read aloud, whether the bot may have
/// been left alone, and whether a pending disconnect is called off (the member came to the
/// bot's channel).
pub fn announce_voice_change(
    c: VoiceChange,
    bot: u64,
    settings: &GuildSettings,
    member: &str,
    user_id: u64,
    guild_name: &str,
    names: &Vec<(u64, String)>,
) -> (a: VoiceAnnouncement)
    ensures
        match dm_text(c, member@, user_id, guild_name@, name_table(names@)) {
            Some(t) => a.dm matches Some(x) && x@ == t,
            None => a.dm is None,
        },
        match read_text(c, bot, *settings, member@, name_table(names@)) {
            Some(t) => a.read matches Some(x) && x@ == t,
            None => a.read is None,
        },
        a.check_auto_disconnect == may_leave_bot_alone(c, bot),
        a.cancel_auto_disconnect == (c.new_channel == Some(bot)),
{
    let dm = match (c.old_channel, c.new_channel) {
        (None, Some(n)) => {
            let name = channel_name(names, n);
            Some(dm_msg(member, user_id, ") joined ", name.as_str(), guild_name))
        },
        (Some(o), None) => {
            let name = channel_name(names, o);
            Some(dm_msg(member, user_id, ") left ", name.as_str(), guild_name))
        },
        _ => None,
    };
    let read = match (c.old_channel, c.new_channel) {
        (None, Some(n)) => if n == bot {
            if settings.read_vc_join {
                Some(member_msg(member, "が参加しました"))
            } else {
                None
            }
        } else if settings.read_vc_move {
            let name = channel_name(names, n);
            Some(name_msg(member, "が", name.as_str(), "に参加しました"))
        } else {
            None
        },
        (Some(o), None) => if o == bot {
            if settings.read_vc_leave {
                Some(member_msg(member, "が退出しました"))
            } else {
                None
            }
        } else if settings.read_vc_move {
            let name = channel_name(names, o);
            Some(name_msg(member, "が", name.as_str(), "から退出しました"))
        } else {
            None
        },
        (Some(o), Some(n)) => if o == n {
            if n == bot {
                if !c.old_stream && c.new_stream {
                    if settings.read_vc_stream_start {
                        Some(member_msg(member, "が配信を開始しました"))
                    } else {
                        None
                    }
                } else if c.old_stream && !c.new_stream {
                    if settings.read_vc_stream_stop {
                        Some(member_msg(member, "が配信を終了しました"))
                    } else {
                        None
                    }
                } else if !c.old_video && c.new_video {
                    if settings.read_vc_camera_on {
                        Some(member_msg(member, "がカメラをオンにしました"))
                    } else {
                        None
                    }
                } else if c.old_video && !c.new_video {
                    if settings.read_vc_camera_off {
                        Some(member_msg(member, "がカメラをオフにしました"))
                    } else {
                        None
                    }
                } else {
                    None
                }
            } else {
                None
            }
        } else if n == bot {
            if settings.read_vc_join {
                Some(member_msg(member, "が参加しました"))
            } else {
                None
            }
        } else if settings.read_vc_move {
            let name = channel_name(names, n);
            Some(name_msg(member, "が", name.as_str(), "に参加しました"))
        } else if settings.read_vc_leave {
            Some(member_msg(member, "が退出しました"))
        } else {
            None
        },
        (None, None) => None,
    };
    let check = match (c.old_channel, c.new_channel) {
        (Some(o), None) => o == bot,
        (Some(o), Some(n)) => o != n && n != bot,
        _ => false,
    };
    let cancel = match c.new_channel {
        Some(n) => n == bot,
        None => false,
    };
    VoiceAnnouncement { dm, read, check_auto_disconnect: check, cancel_auto_disconnect: cancel }
}

} // verus!
