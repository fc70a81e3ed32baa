use kikisen_yomiyomi::pager::{button_row, pager_id, pager_step, Pager, PagerEvent, PagerOpening, PagerStep};
use kikisen_yomiyomi::registry::{target_change_reply, TargetChange, VoiceRegistry};
use kikisen_yomiyomi::settings::{
    apply_bool_setting, bool_setting_choices, bool_setting_label, bool_setting_reply,
    get_command_prefix, set_command_prefix, manager_mention, check_admin_permission, parse_bool_setting, prefix_reply,
    reply_prefix_choices, reply_type_label, reply_type_reply, resolve_voice_params,
    get_guild_settings, user_settings_or_new, whitelist_description, BoolSetting,
    GuildSettings, ManagerEntry, UserSettings, DEFAULT_MUSIC_VOLUME_BITS,
};
use kikisen_yomiyomi::voice::{
    announce_voice_change, channel_list, channel_mention, channel_name, count_members_in_vc,
    VoiceChange, VoiceStateInfo,
};

#[test]
fn default_guild_settings() {
    let s = GuildSettings::default_for_guild(42);
    assert_eq!(s.guild_id, 42);
    assert_eq!(s.admin_permission, "manage_guild");
    assert_eq!(s.default_speaker_id, None);
    assert!(!s.read_embed);
    assert!(s.read_non_vc_user);
    assert!(!s.read_server_muted);
    assert!(!s.read_username);
    assert!(!s.read_spoiler);
    assert!(!s.read_only_mentioned);
    assert!(s.read_silent);
    assert!(s.read_vc_join && s.read_vc_leave && s.read_vc_move && s.read_vc_camera_on);
    assert!(!s.read_vc_camera_off);
    assert!(s.read_vc_stream_start);
    assert!(!s.read_vc_stream_stop);
    assert_eq!(s.reply_prefix_type, 2);
    assert!(s.music_enabled);
    assert_eq!(f32::from_bits(s.default_music_vol), 0.2f32);
    assert_eq!(s.default_music_vol, DEFAULT_MUSIC_VOLUME_BITS);
    assert!(!s.restrict_music_skip);
    assert_eq!(s.command_prefix, "!");
    let kept = get_guild_settings(Some(GuildSettings { reply_prefix_type: 0, ..GuildSettings::default_for_guild(1) }), 9);
    assert_eq!(kept.reply_prefix_type, 0);
    assert_eq!(get_guild_settings(None, 9).guild_id, 9);
}

#[test]
fn bool_setting_read_after_write() {
    let s = GuildSettings::default_for_guild(1);
    let s = apply_bool_setting(s, "read_embed", true);
    assert!(s.read_embed);
    let s = apply_bool_setting(s, "read_vc_stream_stop", true);
    assert!(s.read_vc_stream_stop);
    assert!(s.read_embed);
    let s = apply_bool_setting(s, "read_embed", false);
    assert!(!s.read_embed);
    assert_eq!(parse_bool_setting("music_enabled"), Some(BoolSetting::MusicEnabled));
    assert_eq!(parse_bool_setting("nothing"), None);
}

#[test]
fn unknown_setting_changes_nothing() {
    let before = GuildSettings::default_for_guild(3);
    let after = apply_bool_setting(GuildSettings::default_for_guild(3), "no_such_key", true);
    assert_eq!(after.read_embed, before.read_embed);
    assert_eq!(after.read_vc_camera_off, before.read_vc_camera_off);
    assert_eq!(after.restrict_music_skip, before.restrict_music_skip);
    assert_eq!(after.command_prefix, before.command_prefix);
    match bool_setting_reply("no_such_key", true) {
        Err(m) => assert_eq!(m, "不明な設定項目です。"),
        Ok(_) => panic!("an unknown key was accepted"),
    }
}

#[test]
fn every_setting_is_described() {
    for key in [
        "read_embed", "read_non_vc_user", "read_server_muted", "read_username", "read_spoiler",
        "read_only_mentioned", "read_silent", "read_vc_join", "read_vc_leave", "read_vc_move",
        "read_vc_camera_on", "read_vc_camera_off", "read_vc_stream_start",
        "read_vc_stream_stop", "music_enabled", "restrict_music_skip",
    ] {
        assert!(bool_setting_label(key).is_some(), "{key}");
        assert!(parse_bool_setting(key).is_some(), "{key}");
    }
    assert_eq!(bool_setting_label("read_embed").as_deref(), Some("embedの中身を読む"));
    assert_eq!(
        bool_setting_reply("read_embed", true).ok().as_deref(),
        Some("**embedの中身を読む**を`ON`に設定しました。")
    );
    assert_eq!(
        bool_setting_reply("restrict_music_skip", false).ok().as_deref(),
        Some("**他人の曲のスキップを制限する**を`OFF`に設定しました。")
    );
}

#[test]
fn setting_completions() {
    let all = bool_setting_choices("");
    assert_eq!(all.len(), 16);
    assert_eq!(all[0], ("embedの中身を読む".to_string(), "read_embed".to_string()));
    let vc = bool_setting_choices("VC");
    assert!(vc.iter().all(|(label, _)| label.contains("VC")));
    assert_eq!(vc.len(), 4);
    let replies = reply_prefix_choices("返信");
    assert_eq!(replies.len(), 3);
    assert_eq!(replies[0], ("「返信」".to_string(), 1));
    assert_eq!(reply_prefix_choices("").len(), 4);
}

#[test]
fn reply_types_and_prefix() {
    assert_eq!(reply_type_label(0), "なし");
    assert_eq!(reply_type_label(3), "「○○の××への返信");
    assert_eq!(reply_type_reply(2), "返信形式を`「○○への返信」`に設定しました。");
    assert_eq!(prefix_reply("?"), "プレフィックスを`?`に設定しました。");
    let mut g = GuildSettings::default_for_guild(1);
    g.command_prefix = "$".to_string();
    assert_eq!(get_command_prefix(Some(&g)), "$");
    assert_eq!(get_command_prefix(None), "!");
}

#[test]
fn prefix_written_is_read_back() {
    let g = GuildSettings::default_for_guild(1);
    assert_eq!(get_command_prefix(Some(&g)), "!");
    let g = set_command_prefix(g, "?".to_string());
    assert_eq!(get_command_prefix(Some(&g)), "?");
    assert_eq!(g.guild_id, 1);
    let g = set_command_prefix(g, "yomi ".to_string());
    assert_eq!(get_command_prefix(Some(&g)), "yomi ");
}

#[test]
fn voice_parameters_fall_back() {
    let mut g = GuildSettings::default_for_guild(1);
    let p = resolve_voice_params(None, None);
    assert_eq!(p.speaker_id, 8);
    assert_eq!(f32::from_bits(p.speed), 1.0);
    assert_eq!(f32::from_bits(p.pitch), 0.0);
    assert_eq!(f32::from_bits(p.intonation), 1.0);
    g.default_speaker_id = Some(3);
    g.default_speed = Some(1.5f32.to_bits());
    let mut u = UserSettings::new(1, 2);
    u.speaker_id = Some(10);
    let p = resolve_voice_params(Some(u), Some(&g));
    assert_eq!(p.speaker_id, 10);
    assert_eq!(f32::from_bits(p.speed), 1.5);
    let p = resolve_voice_params(Some(u.reset()), Some(&g));
    assert_eq!(p.speaker_id, 3);
    let fresh = user_settings_or_new(None, 1, 2);
    assert_eq!((fresh.guild_id, fresh.user_id, fresh.speaker_id), (1, 2, None));
}

#[test]
fn managers_may_change_settings() {
    let entries = vec![
        ManagerEntry { guild_id: 1, manager_id: 10, is_role: false },
        ManagerEntry { guild_id: 1, manager_id: 20, is_role: true },
        ManagerEntry { guild_id: 2, manager_id: 30, is_role: false },
    ];
    assert!(check_admin_permission(true, &entries, 1, 99, &vec![]));
    assert!(check_admin_permission(false, &entries, 1, 10, &vec![]));
    assert!(check_admin_permission(false, &entries, 1, 11, &vec![5, 20]));
    assert!(!check_admin_permission(false, &entries, 1, 30, &vec![]));
    assert!(!check_admin_permission(false, &entries, 1, 20, &vec![]));
    assert_eq!(manager_mention(&entries[0]), "<@10>");
    assert_eq!(manager_mention(&entries[1]), "<@&20>");
    assert_eq!(whitelist_description(&vec![]), "登録されているbotはありません。");
    assert_eq!(whitelist_description(&vec![5, 6]), "- <@5>\n- <@6>");
}

#[test]
fn channel_names_and_lists() {
    let names = vec![(1, "一般".to_string()), (2, "雑談".to_string())];
    assert_eq!(channel_name(&names, 2), "雑談");
    assert_eq!(channel_name(&names, 3), "不明なチャンネル");
    assert_eq!(channel_mention(77), "<#77>");
    assert_eq!(channel_list(&vec![1, 2]), "<#1> <#2>");
    assert_eq!(channel_list(&vec![]), "");
}

#[test]
fn members_in_voice_channel_leave_out_bots() {
    let states = vec![
        VoiceStateInfo { user_id: 1, channel_id: Some(9), is_bot: false },
        VoiceStateInfo { user_id: 2, channel_id: Some(9), is_bot: true },
        VoiceStateInfo { user_id: 3, channel_id: Some(8), is_bot: false },
        VoiceStateInfo { user_id: 4, channel_id: None, is_bot: false },
        VoiceStateInfo { user_id: 5, channel_id: Some(9), is_bot: false },
    ];
    assert_eq!(count_members_in_vc(&states, 9), 2);
    assert_eq!(count_members_in_vc(&states, 8), 1);
    assert_eq!(count_members_in_vc(&states, 7), 0);
}

fn change(old: Option<u64>, new: Option<u64>) -> VoiceChange {
    VoiceChange { old_channel: old, new_channel: new, old_stream: false, new_stream: false, old_video: false, new_video: false }
}

#[test]
fn voice_changes_are_announced() {
    let s = GuildSettings::default_for_guild(1);
    let names = vec![(5, "別室".to_string()), (9, "本部屋".to_string())];
    let a = announce_voice_change(change(None, Some(9)), 9, &s, "たろう", 42, "鯖", &names);
    assert_eq!(a.read.as_deref(), Some("たろうが参加しました"));
    assert_eq!(a.dm.as_deref(), Some("たろう (@42) joined 本部屋 in 鯖"));
    assert!(a.cancel_auto_disconnect);
    assert!(!a.check_auto_disconnect);
    let a = announce_voice_change(change(Some(9), None), 9, &s, "たろう", 42, "鯖", &names);
    assert_eq!(a.read.as_deref(), Some("たろうが退出しました"));
    assert_eq!(a.dm.as_deref(), Some("たろう (@42) left 本部屋 in 鯖"));
    assert!(a.check_auto_disconnect);
    let a = announce_voice_change(change(None, Some(5)), 9, &s, "たろう", 42, "鯖", &names);
    assert_eq!(a.read.as_deref(), Some("たろうが別室に参加しました"));
    let a = announce_voice_change(change(Some(9), Some(5)), 9, &s, "たろう", 42, "鯖", &names);
    assert_eq!(a.read.as_deref(), Some("たろうが別室に参加しました"));
    assert_eq!(a.dm, None);
    assert!(a.check_auto_disconnect);
    let a = announce_voice_change(change(Some(5), Some(9)), 9, &s, "たろう", 42, "鯖", &names);
    assert_eq!(a.read.as_deref(), Some("たろうが参加しました"));
    assert!(!a.check_auto_disconnect);
}

#[test]
fn streams_and_cameras_are_announced() {
    let mut s = GuildSettings::default_for_guild(1);
    let names = vec![];
    let mut c = change(Some(9), Some(9));
    c.new_stream = true;
    let a = announce_voice_change(c, 9, &s, "m", 1, "g", &names);
    assert_eq!(a.read.as_deref(), Some("mが配信を開始しました"));
    let mut c = change(Some(9), Some(9));
    c.old_stream = true;
    assert_eq!(announce_voice_change(c, 9, &s, "m", 1, "g", &names).read, None);
    s.read_vc_stream_stop = true;
    assert_eq!(announce_voice_change(c, 9, &s, "m", 1, "g", &names).read.as_deref(), Some("mが配信を終了しました"));
    let mut c = change(Some(9), Some(9));
    c.new_video = true;
    assert_eq!(announce_voice_change(c, 9, &s, "m", 1, "g", &names).read.as_deref(), Some("mがカメラをオンにしました"));
    let mut c = change(Some(4), Some(4));
    c.new_video = true;
    assert_eq!(announce_voice_change(c, 9, &s, "m", 1, "g", &names).read, None);
    s.read_vc_move = false;
    let a = announce_voice_change(change(Some(9), Some(5)), 9, &s, "m", 1, "g", &names);
    assert_eq!(a.read.as_deref(), Some("mが退出しました"));
}

#[test]
fn registry_join_reads_command_and_voice_chat() {
    let mut r = VoiceRegistry::new();
    r.join(None, 100, 7);
    assert!(r.is_reading_target(7));
    assert!(r.is_reading_target(100));
    assert!(!r.is_reading_target(8));
    assert_eq!(r.command_channel(100), Some(7));
    r.join(Some(100), 200, 8);
    assert_eq!(r.command_channel(100), None);
    assert!(!r.is_reading_target(7));
    let mut t = r.targets(200).unwrap();
    t.sort();
    assert_eq!(t, vec![8, 200]);
}

#[test]
fn registry_add_then_remove_target() {
    let mut r = VoiceRegistry::new();
    assert_eq!(r.add_target(1, 5), TargetChange::NotConnected);
    r.join(None, 1, 2);
    assert_eq!(r.add_target(1, 5), TargetChange::Changed);
    assert!(r.is_reading_target(5));
    assert_eq!(r.add_target(1, 5), TargetChange::Unchanged);
    assert_eq!(r.remove_target(1, 5), TargetChange::Changed);
    assert!(!r.is_reading_target(5));
    assert_eq!(r.remove_target(1, 5), TargetChange::Unchanged);
    assert_eq!(r.command_channel(1), Some(2));
    let c = r.context(1).unwrap();
    assert_eq!(c.command_channel, 2);
    assert!(r.unlink(1).is_some());
    assert!(r.context(1).is_none());
}

#[test]
fn target_change_replies() {
    assert_eq!(target_change_reply(TargetChange::Changed, "<#5>", true), "<#5>を読み上げ対象に追加しました。");
    assert_eq!(target_change_reply(TargetChange::Unchanged, "<#5>", true), "<#5>は既に読み上げ対象です。");
    assert_eq!(target_change_reply(TargetChange::Changed, "<#5>", false), "<#5>を読み上げ対象から削除しました。");
    assert_eq!(target_change_reply(TargetChange::Unchanged, "<#5>", false), "<#5>は読み上げ対象ではありません。");
    assert_eq!(target_change_reply(TargetChange::NotConnected, "<#5>", true), "botの接続情報が見付かりませんでした。");
}

#[test]
fn pager_navigation_stays_within_pages() {
    assert_eq!(pager_step(0, 3, PagerEvent::Prev), PagerStep::Show(0));
    assert_eq!(pager_step(0, 3, PagerEvent::Next), PagerStep::Show(1));
    assert_eq!(pager_step(2, 3, PagerEvent::Next), PagerStep::Show(2));
    assert_eq!(pager_step(1, 3, PagerEvent::First), PagerStep::Show(0));
    assert_eq!(pager_step(0, 3, PagerEvent::Last), PagerStep::Show(2));
    assert_eq!(pager_step(1, 3, PagerEvent::Timeout), PagerStep::Finish(None));
    assert_eq!(
        pager_step(1, 3, PagerEvent::Select(Some("8".to_string()))),
        PagerStep::Finish(Some("8".to_string()))
    );
}

#[test]
fn pager_next_then_prev_returns() {
    for current in 0..4usize {
        if let PagerStep::Show(n) = pager_step(current, 5, PagerEvent::Next) {
            assert_eq!(pager_step(n, 5, PagerEvent::Prev), PagerStep::Show(current));
        } else {
            panic!();
        }
    }
}

#[test]
fn pager_components() {
    let b = button_row(0, 3);
    assert!(b.first_disabled && b.prev_disabled);
    assert!(!b.next_disabled && !b.last_disabled);
    assert_eq!(b.label, "1/3");
    let b = button_row(2, 3);
    assert!(b.next_disabled && b.last_disabled && !b.prev_disabled);
    assert_eq!(b.label, "3/3");
    let p: Pager<&str, &str> = Pager::new(vec!["a", "b"]).with_select(vec![vec!["x"], vec![]], "選ぶ".to_string());
    let c = p.components_for_page(0, 2);
    assert!(c.show_select);
    assert!(c.buttons.is_some());
    let c = p.components_for_page(1, 2);
    assert!(!c.show_select);
    let single: Pager<&str, &str> = Pager::new(vec!["only"]);
    assert_eq!(single.timeout_secs, 120);
    assert_eq!(single.select_placeholder, "選択してください");
    let c = single.components_for_page(0, 1);
    assert!(!c.show_select && c.buttons.is_none());
    let t = Pager::<&str, &str>::new(vec![]).timeout(30).ephemeral(true);
    assert_eq!(t.timeout_secs, 30);
    assert!(t.ephemeral);
    assert_eq!(pager_id(123, "pg_next"), "123pg_next");
}

#[test]
fn how_pagers_open() {
    assert_eq!(Pager::<&str, &str>::new(vec![]).opening(), PagerOpening::NoPages);
    assert_eq!(Pager::<&str, &str>::new(vec!["only"]).opening(), PagerOpening::ShowOnly);
    assert_eq!(Pager::<&str, &str>::new(vec!["a", "b"]).opening(), PagerOpening::Interactive);
    let menu = Pager::<&str, &str>::new(vec!["only"]).with_select(vec![vec!["x"]], "選ぶ".to_string());
    assert_eq!(menu.opening(), PagerOpening::Interactive);
    let empty_menu = Pager::<&str, &str>::new(vec!["only"]).with_select(vec![vec![]], "選ぶ".to_string());
    assert_eq!(empty_menu.opening(), PagerOpening::ShowOnly);
}
