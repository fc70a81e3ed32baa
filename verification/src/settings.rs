use vstd::prelude::*;
use crate::text::{chars_of, contains_seq, contains_chars, str_eq};

verus! {

/// The default speaker (a VOICEVOX style id).
pub const DEFAULT_SPEAKER_ID: i32 = 8;

/// The default prefix of text commands.
pub const DEFAULT_PREFIX: &'static str = "!";

/// The bit pattern of the `f32` 1.0.
pub const ONE_F32_BITS: u32 = 0x3f80_0000;

/// The bit pattern of the `f32` 0.0.
pub const ZERO_F32_BITS: u32 = 0;

/// The bit pattern of the `f32` 0.2.
pub const DEFAULT_MUSIC_VOLUME_BITS: u32 = 0x3e4c_cccd;

/// The settings of a guild. Values that are `f32` in storage are held as their bit patterns.
pub struct GuildSettings {
    pub guild_id: i64,
    pub admin_permission: String,
    pub default_speaker_id: Option<i32>,
    pub default_speed: Option<u32>,
    pub default_pitch: Option<u32>,
    pub default_intonation: Option<u32>,
    pub read_embed: bool,
    pub read_non_vc_user: bool,
    pub read_server_muted: bool,
    pub read_username: bool,
    pub read_spoiler: bool,
    pub read_only_mentioned: bool,
    pub read_silent: bool,
    pub read_vc_join: bool,
    pub read_vc_leave: bool,
    pub read_vc_move: bool,
    pub read_vc_camera_on: bool,
    pub read_vc_camera_off: bool,
    pub read_vc_stream_start: bool,
    pub read_vc_stream_stop: bool,
    pub reply_prefix_type: i32,
    pub music_enabled: bool,
    pub default_music_vol: u32,
    pub restrict_music_skip: bool,
    pub command_prefix: String,
}

/// The settings of a guild, with text as character sequences.
pub struct GuildSettingsView {
    pub guild_id: i64,
    pub admin_permission: Seq<char>,
    pub default_speaker_id: Option<i32>,
    pub default_speed: Option<u32>,
    pub default_pitch: Option<u32>,
    pub default_intonation: Option<u32>,
    pub read_embed: bool,
    pub read_non_vc_user: bool,
    pub read_server_muted: bool,
    pub read_username: bool,
    pub read_spoiler: bool,
    pub read_only_mentioned: bool,
    pub read_silent: bool,
    pub read_vc_join: bool,
    pub read_vc_leave: bool,
    pub read_vc_move: bool,
    pub read_vc_camera_on: bool,
    pub read_vc_camera_off: bool,
    pub read_vc_stream_start: bool,
    pub read_vc_stream_stop: bool,
    pub reply_prefix_type: i32,
    pub music_enabled: bool,
    pub default_music_vol: u32,
    pub restrict_music_skip: bool,
    pub command_prefix: Seq<char>,
}

impl View for GuildSettings {
    type V = GuildSettingsView;

    open spec fn view(&self) -> GuildSettingsView {
        GuildSettingsView {
            guild_id: self.guild_id,
            admin_permission: self.admin_permission@,
            default_speaker_id: self.default_speaker_id,
            default_speed: self.default_speed,
            default_pitch: self.default_pitch,
            default_intonation: self.default_intonation,
            read_embed: self.read_embed,
            read_non_vc_user: self.read_non_vc_user,
            read_server_muted: self.read_server_muted,
            read_username: self.read_username,
            read_spoiler: self.read_spoiler,
            read_only_mentioned: self.read_only_mentioned,
            read_silent: self.read_silent,
            read_vc_join: self.read_vc_join,
            read_vc_leave: self.read_vc_leave,
            read_vc_move: self.read_vc_move,
            read_vc_camera_on: self.read_vc_camera_on,
            read_vc_camera_off: self.read_vc_camera_off,
            read_vc_stream_start: self.read_vc_stream_start,
            read_vc_stream_stop: self.read_vc_stream_stop,
            reply_prefix_type: self.reply_prefix_type,
            music_enabled: self.music_enabled,
            default_music_vol: self.default_music_vol,
            restrict_music_skip: self.restrict_music_skip,
            command_prefix: self.command_prefix@,
        }
    }
}

/// The settings of a guild that has stored none.
pub open spec fn default_settings(guild_id: i64) -> GuildSettingsView {
    GuildSettingsView {
        guild_id,
        admin_permission: "manage_guild"@,
        default_speaker_id: None,
        default_speed: None,
        default_pitch: None,
        default_intonation: None,
        read_embed: false,
        read_non_vc_user: true,
        read_server_muted: false,
        read_username: false,
        read_spoiler: false,
        read_only_mentioned: false,
        read_silent: true,
        read_vc_join: true,
        read_vc_leave: true,
        read_vc_move: true,
        read_vc_camera_on: true,
        read_vc_camera_off: false,
        read_vc_stream_start: true,
        read_vc_stream_stop: false,
        reply_prefix_type: 2,
        music_enabled: true,
        default_music_vol: DEFAULT_MUSIC_VOLUME_BITS,
        restrict_music_skip: false,
        command_prefix: "!"@,
    }
}

impl GuildSettings {
    /// The settings of a guild that has stored none.
    pub fn default_for_guild(guild_id: i64) -> (s: Self)
        ensures
            s@ == default_settings(guild_id),
    {
        GuildSettings {
            guild_id,
            admin_permission: String::from_str("manage_guild"),
            default_speaker_id: None,
            default_speed: None,
            default_pitch: None,
            default_intonation: None,
            read_embed: false,
            read_non_vc_user: true,
            read_server_muted: false,
            read_username: false,
            read_spoiler: false,
            read_only_mentioned: false,
            read_silent: true,
            read_vc_join: true,
            read_vc_leave: true,
            read_vc_move: true,
            read_vc_camera_on: true,
            read_vc_camera_off: false,
            read_vc_stream_start: true,
            read_vc_stream_stop: false,
            reply_prefix_type: 2,
            music_enabled: true,
            default_music_vol: DEFAULT_MUSIC_VOLUME_BITS,
            restrict_music_skip: false,
            command_prefix: String::from_str("!"),
        }
    }
}

/// The settings that an update starts from: the stored ones, or the defaults for the guild.
pub fn get_guild_settings(existing: Option<GuildSettings>, guild_id: i64) -> (s: GuildSettings)
    ensures
        s@ == (match existing {
            Some(e) => e@,
            None => default_settings(guild_id),
        }),
{
    match existing {
        Some(e) => e,
        None => GuildSettings::default_for_guild(guild_id),
    }
}

} // verus!

verus! {

// ---------------------------------------------------------------------------
// On/off settings
// ---------------------------------------------------------------------------

/// The views of a table of string pairs.
pub open spec fn pair_views(t: Seq<(String, String)>) -> Seq<(Seq<char>, Seq<char>)> {
    t.map_values(|p: (String, String)| (p.0@, p.1@))
}

/// The on/off settings that can be changed by name: each key with its description.
pub open spec fn bool_settings() -> Seq<(Seq<char>, Seq<char>)> {
    seq![        ("read_embed"@, "embedの中身を読む"@),
        ("read_non_vc_user"@, "VCに参加していないユーザーのメッセージを読む"@),
        ("read_server_muted"@, "サーバーミュートされたユーザーのメッセージを読む"@),
        ("read_username"@, "メッセージの先頭に送信者の名前を読む"@),
        ("read_spoiler"@, "スポイラーの中身を読む"@),
        ("read_only_mentioned"@, "botがメンションされた時だけ読む"@),
        ("read_silent"@, "@silentが付与されたメッセージを読む"@),
        ("read_vc_join"@, "VC参加を読み上げる"@),
        ("read_vc_leave"@, "VC退出を読み上げる"@),
        ("read_vc_move"@, "別のVCの状態を読み上げる"@),
        ("read_vc_camera_on"@, "カメラONを読み上げる"@),
        ("read_vc_camera_off"@, "カメラOFFを読み上げる"@),
        ("read_vc_stream_start"@, "画面共有の開始を読み上げる"@),
        ("read_vc_stream_stop"@, "画面共有の終了を読み上げる"@),
        ("music_enabled"@, "音楽再生機能を有効化する"@),
        ("restrict_music_skip"@, "他人の曲のスキップを制限する"@)
    ]
}

/// The on/off settings, as a table of key and description.
pub fn bool_settings_table() -> (t: Vec<(String, String)>)
    ensures
        pair_views(t@) == bool_settings(),
{
    let mut t: Vec<(String, String)> = Vec::new();
    t.push((String::from_str("read_embed"), String::from_str("embedの中身を読む")));
    t.push((String::from_str("read_non_vc_user"), String::from_str("VCに参加していないユーザーのメッセージを読む")));
    t.push((String::from_str("read_server_muted"), String::from_str("サーバーミュートされたユーザーのメッセージを読む")));
    t.push((String::from_str("read_username"), String::from_str("メッセージの先頭に送信者の名前を読む")));
    t.push((String::from_str("read_spoiler"), String::from_str("スポイラーの中身を読む")));
    t.push((String::from_str("read_only_mentioned"), String::from_str("botがメンションされた時だけ読む")));
    t.push((String::from_str("read_silent"), String::from_str("@silentが付与されたメッセージを読む")));
    t.push((String::from_str("read_vc_join"), String::from_str("VC参加を読み上げる")));
    t.push((String::from_str("read_vc_leave"), String::from_str("VC退出を読み上げる")));
    t.push((String::from_str("read_vc_move"), String::from_str("別のVCの状態を読み上げる")));
    t.push((String::from_str("read_vc_camera_on"), String::from_str("カメラONを読み上げる")));
    t.push((String::from_str("read_vc_camera_off"), String::from_str("カメラOFFを読み上げる")));
    t.push((String::from_str("read_vc_stream_start"), String::from_str("画面共有の開始を読み上げる")));
    t.push((String::from_str("read_vc_stream_stop"), String::from_str("画面共有の終了を読み上げる")));
    t.push((String::from_str("music_enabled"), String::from_str("音楽再生機能を有効化する")));
    t.push((String::from_str("restrict_music_skip"), String::from_str("他人の曲のスキップを制限する")));
    assert(pair_views(t@) =~= bool_settings());
    t
}

/// The description of the first entry of a table whose key is `key`.
pub open spec fn label_of(t: Seq<(Seq<char>, Seq<char>)>, key: Seq<char>) -> Option<Seq<char>>
    decreases t.len(),
{
    if t.len() == 0 {
        None
    } else if t[0].0 == key {
        Some(t[0].1)
    } else {
        label_of(t.drop_first(), key)
    }
}

/// The description of an on/off setting, or `None` for an unknown key.
pub fn bool_setting_label(key: &str) -> (r: Option<String>)
    ensures
        match label_of(bool_settings(), key@) {
            Some(l) => r matches Some(x) && x@ == l,
            None => r is None,
        },
{
    let t = bool_settings_table();
    let mut i: usize = 0;
    assert(pair_views(t@).skip(0) == pair_views(t@));
    while i < t.len()
        invariant
            i <= t.len(),
            pair_views(t@) == bool_settings(),
            label_of(bool_settings(), key@) == label_of(pair_views(t@).skip(i as int), key@),
        decreases t.len() - i,
    {
        assert(pair_views(t@).skip(i as int)[0] == (t@[i as int].0@, t@[i as int].1@));
        assert(pair_views(t@).skip(i as int).drop_first() =~= pair_views(t@).skip(i + 1));
        if str_eq(t[i].0.as_str(), key) {
            return Some(t[i].1.clone());
        }
        i = i + 1;
    }
    None
}

/// An on/off setting of a guild.
#[derive(Clone, Copy, PartialEq, Eq, Debug)]
pub enum BoolSetting {
    ReadEmbed,
    ReadNonVcUser,
    ReadServerMuted,
    ReadUsername,
    ReadSpoiler,
    ReadOnlyMentioned,
    ReadSilent,
    ReadVcJoin,
    ReadVcLeave,
    ReadVcMove,
    ReadVcCameraOn,
    ReadVcCameraOff,
    ReadVcStreamStart,
    ReadVcStreamStop,
    MusicEnabled,
    RestrictMusicSkip,
}

/// The name of an on/off setting.
pub open spec fn bool_setting_key(b: BoolSetting) -> Seq<char> {
    match b {
        BoolSetting::ReadEmbed => "read_embed"@,
        BoolSetting::ReadNonVcUser => "read_non_vc_user"@,
        BoolSetting::ReadServerMuted => "read_server_muted"@,
        BoolSetting::ReadUsername => "read_username"@,
        BoolSetting::ReadSpoiler => "read_spoiler"@,
        BoolSetting::ReadOnlyMentioned => "read_only_mentioned"@,
        BoolSetting::ReadSilent => "read_silent"@,
        BoolSetting::ReadVcJoin => "read_vc_join"@,
        BoolSetting::ReadVcLeave => "read_vc_leave"@,
        BoolSetting::ReadVcMove => "read_vc_move"@,
        BoolSetting::ReadVcCameraOn => "read_vc_camera_on"@,
        BoolSetting::ReadVcCameraOff => "read_vc_camera_off"@,
        BoolSetting::ReadVcStreamStart => "read_vc_stream_start"@,
        BoolSetting::ReadVcStreamStop => "read_vc_stream_stop"@,
        BoolSetting::MusicEnabled => "music_enabled"@,
        BoolSetting::RestrictMusicSkip => "restrict_music_skip"@,
    }
}

/// The on/off setting that `key` names.
pub open spec fn bool_setting_named(key: Seq<char>) -> Option<BoolSetting> {
    if key == "read_embed"@ {
        Some(BoolSetting::ReadEmbed)
    }     else if key == "read_non_vc_user"@ {
        Some(BoolSetting::ReadNonVcUser)
    }     else if key == "read_server_muted"@ {
        Some(BoolSetting::ReadServerMuted)
    }     else if key == "read_username"@ {
        Some(BoolSetting::ReadUsername)
    }     else if key == "read_spoiler"@ {
        Some(BoolSetting::ReadSpoiler)
    }     else if key == "read_only_mentioned"@ {
        Some(BoolSetting::ReadOnlyMentioned)
    }     else if key == "read_silent"@ {
        Some(BoolSetting::ReadSilent)
    }     else if key == "read_vc_join"@ {
        Some(BoolSetting::ReadVcJoin)
    }     else if key == "read_vc_leave"@ {
        Some(BoolSetting::ReadVcLeave)
    }     else if key == "read_vc_move"@ {
        Some(BoolSetting::ReadVcMove)
    }     else if key == "read_vc_camera_on"@ {
        Some(BoolSetting::ReadVcCameraOn)
    }     else if key == "read_vc_camera_off"@ {
        Some(BoolSetting::ReadVcCameraOff)
    }     else if key == "read_vc_stream_start"@ {
        Some(BoolSetting::ReadVcStreamStart)
    }     else if key == "read_vc_stream_stop"@ {
        Some(BoolSetting::ReadVcStreamStop)
    }     else if key == "music_enabled"@ {
        Some(BoolSetting::MusicEnabled)
    }     else if key == "restrict_music_skip"@ {
        Some(BoolSetting::RestrictMusicSkip)
    } else {
        None
    }
}

/// The on/off setting that `key` names, or `None` for an unknown key.
pub fn parse_bool_setting(key: &str) -> (r: Option<BoolSetting>)
    ensures
        r == bool_setting_named(key@),
{
    if str_eq(key, "read_embed") {
        Some(BoolSetting::ReadEmbed)
    }     else if str_eq(key, "read_non_vc_user") {
        Some(BoolSetting::ReadNonVcUser)
    }     else if str_eq(key, "read_server_muted") {
        Some(BoolSetting::ReadServerMuted)
    }     else if str_eq(key, "read_username") {
        Some(BoolSetting::ReadUsername)
    }     else if str_eq(key, "read_spoiler") {
        Some(BoolSetting::ReadSpoiler)
    }     else if str_eq(key, "read_only_mentioned") {
        Some(BoolSetting::ReadOnlyMentioned)
    }     else if str_eq(key, "read_silent") {
        Some(BoolSetting::ReadSilent)
    }     else if str_eq(key, "read_vc_join") {
        Some(BoolSetting::ReadVcJoin)
    }     else if str_eq(key, "read_vc_leave") {
        Some(BoolSetting::ReadVcLeave)
    }     else if str_eq(key, "read_vc_move") {
        Some(BoolSetting::ReadVcMove)
    }     else if str_eq(key, "read_vc_camera_on") {
        Some(BoolSetting::ReadVcCameraOn)
    }     else if str_eq(key, "read_vc_camera_off") {
        Some(BoolSetting::ReadVcCameraOff)
    }     else if str_eq(key, "read_vc_stream_start") {
        Some(BoolSetting::ReadVcStreamStart)
    }     else if str_eq(key, "read_vc_stream_stop") {
        Some(BoolSetting::ReadVcStreamStop)
    }     else if str_eq(key, "music_enabled") {
        Some(BoolSetting::MusicEnabled)
    }     else if str_eq(key, "restrict_music_skip") {
        Some(BoolSetting::RestrictMusicSkip)
    } else {
        None
    }
}

/// The value of an on/off setting.
pub open spec fn get_bool_setting(s: GuildSettingsView, b: BoolSetting) -> bool {
    match b {
        BoolSetting::ReadEmbed => s.read_embed,
        BoolSetting::ReadNonVcUser => s.read_non_vc_user,
        BoolSetting::ReadServerMuted => s.read_server_muted,
        BoolSetting::ReadUsername => s.read_username,
        BoolSetting::ReadSpoiler => s.read_spoiler,
        BoolSetting::ReadOnlyMentioned => s.read_only_mentioned,
        BoolSetting::ReadSilent => s.read_silent,
        BoolSetting::ReadVcJoin => s.read_vc_join,
        BoolSetting::ReadVcLeave => s.read_vc_leave,
        BoolSetting::ReadVcMove => s.read_vc_move,
        BoolSetting::ReadVcCameraOn => s.read_vc_camera_on,
        BoolSetting::ReadVcCameraOff => s.read_vc_camera_off,
        BoolSetting::ReadVcStreamStart => s.read_vc_stream_start,
        BoolSetting::ReadVcStreamStop => s.read_vc_stream_stop,
        BoolSetting::MusicEnabled => s.music_enabled,
        BoolSetting::RestrictMusicSkip => s.restrict_music_skip,
    }
}

/// The settings with one on/off setting changed.
pub open spec fn set_bool_setting(s: GuildSettingsView, b: BoolSetting, value: bool) -> GuildSettingsView {
    GuildSettingsView {
        read_embed: if b is ReadEmbed { value } else { s.read_embed },
        read_non_vc_user: if b is ReadNonVcUser { value } else { s.read_non_vc_user },
        read_server_muted: if b is ReadServerMuted { value } else { s.read_server_muted },
        read_username: if b is ReadUsername { value } else { s.read_username },
        read_spoiler: if b is ReadSpoiler { value } else { s.read_spoiler },
        read_only_mentioned: if b is ReadOnlyMentioned { value } else { s.read_only_mentioned },
        read_silent: if b is ReadSilent { value } else { s.read_silent },
        read_vc_join: if b is ReadVcJoin { value } else { s.read_vc_join },
        read_vc_leave: if b is ReadVcLeave { value } else { s.read_vc_leave },
        read_vc_move: if b is ReadVcMove { value } else { s.read_vc_move },
        read_vc_camera_on: if b is ReadVcCameraOn { value } else { s.read_vc_camera_on },
        read_vc_camera_off: if b is ReadVcCameraOff { value } else { s.read_vc_camera_off },
        read_vc_stream_start: if b is ReadVcStreamStart { value } else { s.read_vc_stream_start },
        read_vc_stream_stop: if b is ReadVcStreamStop { value } else { s.read_vc_stream_stop },
        music_enabled: if b is MusicEnabled { value } else { s.music_enabled },
        restrict_music_skip: if b is RestrictMusicSkip { value } else { s.restrict_music_skip },
        ..s
    }
}

fn set_read_embed(s: GuildSettings, b: BoolSetting, value: bool) -> (r: GuildSettings)
    requires
        b is ReadEmbed,
    ensures
        r@ === set_bool_setting(s@, b, value),
{
    let mut s = s;
    s.read_embed = value;
    s
}

fn set_read_non_vc_user(s: GuildSettings, b: BoolSetting, value: bool) -> (r: GuildSettings)
    requires
        b is ReadNonVcUser,
    ensures
        r@ === set_bool_setting(s@, b, value),
{
    let mut s = s;
    s.read_non_vc_user = value;
    s
}

fn set_read_server_muted(s: GuildSettings, b: BoolSetting, value: bool) -> (r: GuildSettings)
    requires
        b is ReadServerMuted,
    ensures
        r@ === set_bool_setting(s@, b, value),
{
    let mut s = s;
    s.read_server_muted = value;
    s
}

fn set_read_username(s: GuildSettings, b: BoolSetting, value: bool) -> (r: GuildSettings)
    requires
        b is ReadUsername,
    ensures
        r@ === set_bool_setting(s@, b, value),
{
    let mut s = s;
    s.read_username = value;
    s
}

fn set_read_spoiler(s: GuildSettings, b: BoolSetting, value: bool) -> (r: GuildSettings)
    requires
        b is ReadSpoiler,
    ensures
        r@ === set_bool_setting(s@, b, value),
{
    let mut s = s;
    s.read_spoiler = value;
    s
}

fn set_read_only_mentioned(s: GuildSettings, b: BoolSetting, value: bool) -> (r: GuildSettings)
    requires
        b is ReadOnlyMentioned,
    ensures
        r@ === set_bool_setting(s@, b, value),
{
    let mut s = s;
    s.read_only_mentioned = value;
    s
}

fn set_read_silent(s: GuildSettings, b: BoolSetting, value: bool) -> (r: GuildSettings)
    requires
        b is ReadSilent,
    ensures
        r@ === set_bool_setting(s@, b, value),
{
    let mut s = s;
    s.read_silent = value;
    s
}

fn set_read_vc_join(s: GuildSettings, b: BoolSetting, value: bool) -> (r: GuildSettings)
    requires
        b is ReadVcJoin,
    ensures
        r@ === set_bool_setting(s@, b, value),
{
    let mut s = s;
    s.read_vc_join = value;
    s
}

fn set_read_vc_leave(s: GuildSettings, b: BoolSetting, value: bool) -> (r: GuildSettings)
    requires
        b is ReadVcLeave,
    ensures
        r@ === set_bool_setting(s@, b, value),
{
    let mut s = s;
    s.read_vc_leave = value;
    s
}

fn set_read_vc_move(s: GuildSettings, b: BoolSetting, value: bool) -> (r: GuildSettings)
    requires
        b is ReadVcMove,
    ensures
        r@ === set_bool_setting(s@, b, value),
{
    let mut s = s;
    s.read_vc_move = value;
    s
}

fn set_read_vc_camera_on(s: GuildSettings, b: BoolSetting, value: bool) -> (r: GuildSettings)
    requires
        b is ReadVcCameraOn,
    ensures
        r@ === set_bool_setting(s@, b, value),
{
    let mut s = s;
    s.read_vc_camera_on = value;
    s
}

fn set_read_vc_camera_off(s: GuildSettings, b: BoolSetting, value: bool) -> (r: GuildSettings)
    requires
        b is ReadVcCameraOff,
    ensures
        r@ === set_bool_setting(s@, b, value),
{
    let mut s = s;
    s.read_vc_camera_off = value;
    s
}

fn set_read_vc_stream_start(s: GuildSettings, b: BoolSetting, value: bool) -> (r: GuildSettings)
    requires
        b is ReadVcStreamStart,
    ensures
        r@ === set_bool_setting(s@, b, value),
{
    let mut s = s;
    s.read_vc_stream_start = value;
    s
}

fn set_read_vc_stream_stop(s: GuildSettings, b: BoolSetting, value: bool) -> (r: GuildSettings)
    requires
        b is ReadVcStreamStop,
    ensures
        r@ === set_bool_setting(s@, b, value),
{
    let mut s = s;
    s.read_vc_stream_stop = value;
    s
}

fn set_music_enabled(s: GuildSettings, b: BoolSetting, value: bool) -> (r: GuildSettings)
    requires
        b is MusicEnabled,
    ensures
        r@ === set_bool_setting(s@, b, value),
{
    let mut s = s;
    s.music_enabled = value;
    s
}

fn set_restrict_music_skip(s: GuildSettings, b: BoolSetting, value: bool) -> (r: GuildSettings)
    requires
        b is RestrictMusicSkip,
    ensures
        r@ === set_bool_setting(s@, b, value),
{
    let mut s = s;
    s.restrict_music_skip = value;
    s
}

/// The settings with one on/off setting changed.
pub fn with_setting(s: GuildSettings, b: BoolSetting, value: bool) -> (r: GuildSettings)
    ensures
        r@ === set_bool_setting(s@, b, value),
{
    if let BoolSetting::ReadEmbed = b {
        return set_read_embed(s, b, value);
    }
    if let BoolSetting::ReadNonVcUser = b {
        return set_read_non_vc_user(s, b, value);
    }
    if let BoolSetting::ReadServerMuted = b {
        return set_read_server_muted(s, b, value);
    }
    if let BoolSetting::ReadUsername = b {
        return set_read_username(s, b, value);
    }
    if let BoolSetting::ReadSpoiler = b {
        return set_read_spoiler(s, b, value);
    }
    if let BoolSetting::ReadOnlyMentioned = b {
        return set_read_only_mentioned(s, b, value);
    }
    if let BoolSetting::ReadSilent = b {
        return set_read_silent(s, b, value);
    }
    if let BoolSetting::ReadVcJoin = b {
        return set_read_vc_join(s, b, value);
    }
    if let BoolSetting::ReadVcLeave = b {
        return set_read_vc_leave(s, b, value);
    }
    if let BoolSetting::ReadVcMove = b {
        return set_read_vc_move(s, b, value);
    }
    if let BoolSetting::ReadVcCameraOn = b {
        return set_read_vc_camera_on(s, b, value);
    }
    if let BoolSetting::ReadVcCameraOff = b {
        return set_read_vc_camera_off(s, b, value);
    }
    if let BoolSetting::ReadVcStreamStart = b {
        return set_read_vc_stream_start(s, b, value);
    }
    if let BoolSetting::ReadVcStreamStop = b {
        return set_read_vc_stream_stop(s, b, value);
    }
    if let BoolSetting::MusicEnabled = b {
        return set_music_enabled(s, b, value);
    }
    set_restrict_music_skip(s, b, value)
}

/// The settings with the on/off setting named `key` set to `value`; unchanged for an
/// unknown key.
pub open spec fn with_bool_setting(s: GuildSettingsView, key: Seq<char>, value: bool) -> GuildSettingsView {
    match bool_setting_named(key) {
        Some(b) => set_bool_setting(s, b, value),
        None => s,
    }
}

/// Sets the on/off setting named `key`; an unknown key changes nothing.
pub fn apply_bool_setting(s: GuildSettings, key: &str, value: bool) -> (r: GuildSettings)
    ensures
        r@ === with_bool_setting(s@, key@, value),
{
    match parse_bool_setting(key) {
        Some(b) => with_setting(s, b, value),
        None => s,
    }
}

/// A key names an on/off setting only when it is that setting's key.
pub proof fn lemma_bool_setting_names(key: Seq<char>, b: BoolSetting)
    ensures
        bool_setting_named(key) == Some(b) ==> key == bool_setting_key(b),
{
}

/// Reading an on/off setting after it was set gives the value that was set, every other
/// on/off setting keeps its value, and so does every other field of the settings.
#[verifier::rlimit(60)]
pub proof fn law_bool_setting_read_after_write(s: GuildSettingsView, b: BoolSetting, other: BoolSetting, value: bool)
    ensures
        get_bool_setting(set_bool_setting(s, b, value), b) == value,
        other != b ==> get_bool_setting(set_bool_setting(s, b, value), other) == get_bool_setting(s, other),
        set_bool_setting(s, b, value).guild_id == s.guild_id,
        set_bool_setting(s, b, value).command_prefix == s.command_prefix,
        set_bool_setting(s, b, value).reply_prefix_type == s.reply_prefix_type,
        set_bool_setting(s, b, value).default_speaker_id == s.default_speaker_id,
        set_bool_setting(s, b, value).default_music_vol == s.default_music_vol,
{
}

/// Setting by name an unknown key changes nothing.
pub proof fn law_unknown_setting_changes_nothing(s: GuildSettingsView, key: Seq<char>, value: bool)
    requires
        bool_setting_named(key) is None,
    ensures
        with_bool_setting(s, key, value) == s,
{
}

/// The table of descriptions has an entry for the name of every on/off setting.
pub proof fn law_every_setting_is_described(b: BoolSetting)
    ensures
        label_of(bool_settings(), bool_setting_key(b)) is Some,
{
    reveal_with_fuel(label_of, 17);
}

// ---------------------------------------------------------------------------
// Reply prefixes
// ---------------------------------------------------------------------------

/// The forms of the prefix that is read before a reply, by number, as offered for choice.
pub open spec fn reply_prefix_types() -> Seq<(i32, Seq<char>)> {
    seq![(0, "なし"@), (1, "「返信」"@), (2, "「○○への返信」"@), (3, "「○○の××への返信」"@)]
}

/// The label by which the reply form `t` is confirmed once it is set.
pub open spec fn reply_type_label_text(t: i32) -> Seq<char> {
    if t == 0 {
        "なし"@
    } else if t == 1 {
        "「返信」"@
    } else if t == 2 {
        "「○○への返信」"@
    } else {
        "「○○の××への返信"@
    }
}

/// The label that confirms a newly set reply form. Only the forms 0 to 3 have one; the
/// command stops on any other number.
pub fn reply_type_label(t: i32) -> (r: String)
    requires
        0 <= t <= 3,
    ensures
        r@ == reply_type_label_text(t),
{
    if t == 0 {
        String::from_str("なし")
    } else if t == 1 {
        String::from_str("「返信」")
    } else if t == 2 {
        String::from_str("「○○への返信」")
    } else {
        String::from_str("「○○の××への返信")
    }
}

/// The entries of a table whose label contains `partial` (all of them when it is empty),
/// in order, each as (label, key).
pub open spec fn matching_choices<K>(t: Seq<(K, Seq<char>)>, partial: Seq<char>) -> Seq<(Seq<char>, K)>
    decreases t.len(),
{
    if t.len() == 0 {
        Seq::empty()
    } else {
        let rest = matching_choices(t.drop_last(), partial);
        if partial.len() == 0 || contains_seq(t.last().1, partial) {
            rest.push((t.last().1, t.last().0))
        } else {
            rest
        }
    }
}

/// The reply forms whose label contains `partial`, as (label, number).
pub fn reply_prefix_choices(partial: &str) -> (r: Vec<(String, i32)>)
    ensures
        r@.map_values(|p: (String, i32)| (p.0@, p.1)) == matching_choices(reply_prefix_types(), partial@),
{
    let mut t: Vec<(i32, String)> = Vec::new();
    t.push((0, String::from_str("なし")));
    t.push((1, String::from_str("「返信」")));
    t.push((2, String::from_str("「○○への返信」")));
    t.push((3, String::from_str("「○○の××への返信」")));
    let ghost tv = t@.map_values(|p: (i32, String)| (p.0, p.1@));
    assert(tv =~= reply_prefix_types());
    let p = chars_of(partial);
    let mut r: Vec<(String, i32)> = Vec::new();
    let mut i: usize = 0;
    while i < t.len()
        invariant
            i <= t.len(),
            p@ == partial@,
            tv == t@.map_values(|p: (i32, String)| (p.0, p.1@)),
            r@.map_values(|p: (String, i32)| (p.0@, p.1)) == matching_choices(tv.take(i as int), p@),
        decreases t.len() - i,
    {
        assert(tv.take(i + 1).drop_last() =~= tv.take(i as int));
        assert(tv.take(i + 1).last() == (t@[i as int].0, t@[i as int].1@));
        let label = chars_of(t[i].1.as_str());
        if p.len() == 0 || contains_chars(&label, &p) {
            let ghost before = r@;
            r.push((t[i].1.clone(), t[i].0));
            assert(r@.map_values(|p: (String, i32)| (p.0@, p.1)) =~= before.map_values(
                |p: (String, i32)| (p.0@, p.1),
            ).push((t@[i as int].1@, t@[i as int].0)));
        }
        i = i + 1;
    }
    assert(tv.take(t.len() as int) =~= tv);
    r
}

/// The on/off settings whose description contains `partial`, as (description, key).
pub fn bool_setting_choices(partial: &str) -> (r: Vec<(String, String)>)
    ensures
        pair_views(r@) == matching_choices(bool_settings(), partial@),
{
    let t = bool_settings_table();
    let ghost tv = pair_views(t@);
    let p = chars_of(partial);
    let mut r: Vec<(String, String)> = Vec::new();
    let mut i: usize = 0;
    while i < t.len()
        invariant
            i <= t.len(),
            p@ == partial@,
            tv == pair_views(t@),
            tv == bool_settings(),
            pair_views(r@) == matching_choices(tv.take(i as int), p@),
        decreases t.len() - i,
    {
        assert(tv.take(i + 1).drop_last() =~= tv.take(i as int));
        assert(tv.take(i + 1).last() == (t@[i as int].0@, t@[i as int].1@));
        let label = chars_of(t[i].1.as_str());
        if p.len() == 0 || contains_chars(&label, &p) {
            let ghost before = r@;
            r.push((t[i].1.clone(), t[i].0.clone()));
            assert(pair_views(r@) =~= pair_views(before).push((t@[i as int].1@, t@[i as int].0@)));
        }
        i = i + 1;
    }
    assert(tv.take(t.len() as int) =~= tv);
    r
}

// ---------------------------------------------------------------------------
// Per-user voice settings
// ---------------------------------------------------------------------------

/// A user's own voice settings in a guild. Values that are `f32` in storage are held as
/// their bit patterns.
#[derive(Clone, Copy, PartialEq, Eq, Debug)]
pub struct UserSettings {
    pub guild_id: i64,
    pub user_id: i64,
    pub speaker_id: Option<i32>,
    pub speed: Option<u32>,
    pub pitch: Option<u32>,
    pub intonation: Option<u32>,
}

impl UserSettings {
    /// The settings of a user who has set nothing.
    pub fn new(guild_id: i64, user_id: i64) -> (s: Self)
        ensures
            s == (UserSettings {
                guild_id,
                user_id,
                speaker_id: None,
                speed: None,
                pitch: None,
                intonation: None,
            }),
    {
        UserSettings { guild_id, user_id, speaker_id: None, speed: None, pitch: None, intonation: None }
    }

    /// The same user with every voice setting cleared.
    pub fn reset(self) -> (s: Self)
        ensures
            s == (UserSettings { speaker_id: None, speed: None, pitch: None, intonation: None, ..self }),
    {
        UserSettings { speaker_id: None, speed: None, pitch: None, intonation: None, ..self }
    }
}

/// The settings that an update of a user's settings starts from.
pub fn user_settings_or_new(existing: Option<UserSettings>, guild_id: i64, user_id: i64) -> (s: UserSettings)
    ensures
        s == (match existing {
            Some(e) => e,
            None => UserSettings {
                guild_id,
                user_id,
                speaker_id: None,
                speed: None,
                pitch: None,
                intonation: None,
            },
        }),
{
    match existing {
        Some(e) => e,
        None => UserSettings::new(guild_id, user_id),
    }
}

/// What a message is read with: a speaker and three `f32` parameters given by their bits.
#[derive(Clone, Copy, PartialEq, Eq, Debug)]
pub struct VoiceParams {
    pub speaker_id: i32,
    pub speed: u32,
    pub pitch: u32,
    pub intonation: u32,
}

/// The first value that is set: the user's, then the guild's default, then the fallback.
pub open spec fn first_set<T>(user: Option<T>, guild: Option<T>, fallback: T) -> T {
    match user {
        Some(v) => v,
        None => match guild {
            Some(v) => v,
            None => fallback,
        },
    }
}

fn pick<T: Copy>(user: Option<T>, guild: Option<T>, fallback: T) -> (r: T)
    ensures
        r == first_set(user, guild, fallback),
{
    match user {
        Some(v) => v,
        None => match guild {
            Some(v) => v,
            None => fallback,
        },
    }
}

/// The voice parameters for a message: each is the user's own setting when there is one,
/// else the guild's default, else the built-in default (speaker 8, speed 1, pitch 0,
/// intonation 1).
pub fn resolve_voice_params(user: Option<UserSettings>, guild: Option<&GuildSettings>) -> (p: VoiceParams)
    ensures
        p.speaker_id == first_set(
            match user { Some(u) => u.speaker_id, None => None },
            match guild { Some(g) => g.default_speaker_id, None => None },
            DEFAULT_SPEAKER_ID,
        ),
        p.speed == first_set(
            match user { Some(u) => u.speed, None => None },
            match guild { Some(g) => g.default_speed, None => None },
            ONE_F32_BITS,
        ),
        p.pitch == first_set(
            match user { Some(u) => u.pitch, None => None },
            match guild { Some(g) => g.default_pitch, None => None },
            ZERO_F32_BITS,
        ),
        p.intonation == first_set(
            match user { Some(u) => u.intonation, None => None },
            match guild { Some(g) => g.default_intonation, None => None },
            ONE_F32_BITS,
        ),
{
    let (us, usp, up, ui) = match user {
        Some(u) => (u.speaker_id, u.speed, u.pitch, u.intonation),
        None => (None, None, None, None),
    };
    let (gs, gsp, gp, gi) = match guild {
        Some(g) => (g.default_speaker_id, g.default_speed, g.default_pitch, g.default_intonation),
        None => (None, None, None, None),
    };
    VoiceParams {
        speaker_id: pick(us, gs, DEFAULT_SPEAKER_ID),
        speed: pick(usp, gsp, ONE_F32_BITS),
        pitch: pick(up, gp, ZERO_F32_BITS),
        intonation: pick(ui, gi, ONE_F32_BITS),
    }
}

// ---------------------------------------------------------------------------
// Who may change the settings
// ---------------------------------------------------------------------------

/// A user or role that was made a manager of a guild's settings.
#[derive(Clone, Copy, PartialEq, Eq, Debug)]
pub struct ManagerEntry {
    pub guild_id: i64,
    pub manager_id: i64,
    pub is_role: bool,
}

/// The entry makes `user`, who has the roles `roles`, a manager in `guild`.
pub open spec fn grants(e: ManagerEntry, guild: i64, user: i64, roles: Seq<i64>) -> bool {
    e.guild_id == guild && ((e.manager_id == user && !e.is_role) || (e.is_role && roles.contains(
        e.manager_id,
    )))
}

/// Whether a user may change a guild's settings: administrators may, and so may users who
/// were made managers themselves or through one of their roles.
pub fn check_admin_permission(
    is_administrator: bool,
    entries: &Vec<ManagerEntry>,
    guild: i64,
    user: i64,
    roles: &Vec<i64>,
) -> (r: bool)
    ensures
        r == (is_administrator || exists|i: int|
            0 <= i < entries.len() && grants(#[trigger] entries@[i], guild, user, roles@)),
{
    if is_administrator {
        return true;
    }
    let mut i: usize = 0;
    while i < entries.len()
        invariant
            i <= entries.len(),
            forall|k: int| 0 <= k < i ==> !grants(#[trigger] entries@[k], guild, user, roles@),
        decreases entries.len() - i,
    {
        let e = entries[i];
        if e.guild_id == guild {
            if e.manager_id == user && !e.is_role {
                return true;
            }
            if e.is_role {
                let mut j: usize = 0;
                while j < roles.len()
                    invariant
                        j <= roles.len(),
                        i < entries.len(),
                        e == entries@[i as int],
                        e.guild_id == guild,
                        e.is_role,
                        forall|k: int| 0 <= k < j ==> roles@[k] != e.manager_id,
                    decreases roles.len() - j,
                {
                    if roles[j] == e.manager_id {
                        assert(roles@.contains(e.manager_id));
                        assert(grants(entries@[i as int], guild, user, roles@));
                        return true;
                    }
                    j = j + 1;
                }
            }
        }
        i = i + 1;
    }
    false
}

/// How a manager entry is mentioned: `<@&id>` for a role, `<@id>` for a user.
pub open spec fn manager_mention_text(e: ManagerEntry) -> Seq<char> {
    (if e.is_role {
        "<@&"@
    } else {
        "<@"@
    }) + crate::text::dec_signed(e.manager_id as int) + ">"@
}

/// The mention of a manager entry.
pub fn manager_mention(e: &ManagerEntry) -> (r: String)
    ensures
        r@ == manager_mention_text(*e),
{
    let mut s = String::new();
    if e.is_role {
        s.append("<@&");
    } else {
        s.append("<@");
    }
    crate::text::push_signed_decimal(&mut s, e.manager_id);
    s.append(">");
    s
}

/// The line that lists a whitelisted bot: `- <@id>`.
pub open spec fn whitelist_line_text(bot_id: i64) -> Seq<char> {
    "- <@"@ + crate::text::dec_signed(bot_id as int) + ">"@
}

/// The description of the bot whitelist: one line per bot, or a notice that it is empty.
pub open spec fn whitelist_text(bots: Seq<i64>) -> Seq<char> {
    if bots.len() == 0 {
        "登録されているbotはありません。"@
    } else {
        crate::text::joined(bots.map_values(|b: i64| whitelist_line_text(b)), "\n"@)
    }
}

/// Describes the bots on a guild's whitelist.
pub fn whitelist_description(bots: &Vec<i64>) -> (r: String)
    ensures
        r@ == whitelist_text(bots@),
{
    if bots.len() == 0 {
        return String::from_str("登録されているbotはありません。");
    }
    let mut lines: Vec<String> = Vec::new();
    let mut i: usize = 0;
    while i < bots.len()
        invariant
            i <= bots.len(),
            crate::text::string_views(lines@) == bots@.take(i as int).map_values(
                |b: i64| whitelist_line_text(b),
            ),
        decreases bots.len() - i,
    {
        let mut s = String::new();
        s.append("- <@");
        crate::text::push_signed_decimal(&mut s, bots[i]);
        s.append(">");
        let ghost before = lines@;
        lines.push(s);
        assert(crate::text::string_views(lines@) =~= crate::text::string_views(before).push(s@));
        assert(bots@.take(i + 1).map_values(|b: i64| whitelist_line_text(b)) =~= bots@.take(
            i as int,
        ).map_values(|b: i64| whitelist_line_text(b)).push(whitelist_line_text(bots@[i as int])));
        i = i + 1;
    }
    assert(bots@.take(bots.len() as int) =~= bots@);
    crate::text::join_strings(&lines, "\n")
}

/// The reply after an on/off setting was changed: the setting's description in bold and
/// the new state, or a notice that the key names no setting.
pub fn bool_setting_reply(key: &str, value: bool) -> (r: Result<String, String>)
    ensures
        match label_of(bool_settings(), key@) {
            Some(l) => r matches Ok(m) && m@ == "**"@ + l + "**を`"@ + (if value {
                "ON"@
            } else {
                "OFF"@
            }) + "`に設定しました。"@,
            None => r matches Err(m) && m@ == "不明な設定項目です。"@,
        },
{
    match bool_setting_label(key) {
        Some(l) => {
            let mut s = String::from_str("**");
            s.append(l.as_str());
            s.append("**を`");
            if value {
                s.append("ON");
            } else {
                s.append("OFF");
            }
            s.append("`に設定しました。");
            Ok(s)
        },
        None => Err(String::from_str("不明な設定項目です。")),
    }
}

/// The reply after the reply form was set to one of the forms 0 to 3.
pub fn reply_type_reply(t: i32) -> (r: String)
    requires
        0 <= t <= 3,
    ensures
        r@ == "返信形式を`"@ + reply_type_label_text(t) + "`に設定しました。"@,
{
    let label = reply_type_label(t);
    let mut s = String::from_str("返信形式を`");
    s.append(label.as_str());
    s.append("`に設定しました。");
    s
}

/// The reply after the prefix of text commands was set.
pub fn prefix_reply(prefix: &str) -> (r: String)
    ensures
        r@ == "プレフィックスを`"@ + prefix@ + "`に設定しました。"@,
{
    let mut s = String::from_str("プレフィックスを`");
    s.append(prefix);
    s.append("`に設定しました。");
    s
}

/// The prefix of text commands: the guild's inside a guild (from its settings), the default
/// outside one.
pub open spec fn prefix_of(g: Option<GuildSettingsView>) -> Seq<char> {
    match g {
        Some(v) => v.command_prefix,
        None => "!"@,
    }
}

/// The prefix of text commands: the guild's (from its settings) inside a guild, the
/// default outside one.
pub fn get_command_prefix(guild_settings: Option<&GuildSettings>) -> (r: String)
    ensures
        r@ == prefix_of(
            match guild_settings {
                Some(g) => Some(g@),
                None => None,
            },
        ),
{
    match guild_settings {
        Some(g) => g.command_prefix.clone(),
        None => String::from_str("!"),
    }
}

/// The settings with the prefix of text commands set to `prefix`, all else kept.
pub fn set_command_prefix(s: GuildSettings, prefix: String) -> (r: GuildSettings)
    ensures
        r@ == (GuildSettingsView { command_prefix: prefix@, ..s@ }),
{
    let mut r = s;
    r.command_prefix = prefix;
    r
}

/// After a guild's prefix is set, text commands in that guild use it; a guild that never
/// set one, and any place outside a guild, use the default `!`.
pub proof fn law_prefix_read_after_write(s: GuildSettingsView, p: Seq<char>, guild: i64)
    ensures
        prefix_of(Some(GuildSettingsView { command_prefix: p, ..s })) == p,
        prefix_of(Some(default_settings(guild))) == "!"@,
        prefix_of(None) == "!"@,
{
}

} // verus!
