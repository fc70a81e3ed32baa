use kikisen_yomiyomi::autoconnect::{
    auto_connect_prompt, auto_join_context, auto_join_plan, existing_choice, AutoConnectStore,
    AutoConnection, ConfigAction, ConfigDialog, ConfigEvent, ExistingChoice, ReadingTarget,
};
use kikisen_yomiyomi::connection::{
    bot_display_name, channel_left_by_bot, check_is_developer, connect_decision, connect_notice,
    disconnect_decision, forget_channel_left_by_bot, joined_speech, leaves_after_wait, move_reply,
    notify_channels_once, reconnect_description, reconnect_failed_description,
    reconnected_speech, restart_entries, restart_notice, schedule_needed, should_reconnect,
    startup_notice, auto_join_description, ConnectDecision, DisconnectDecision,
    PendingDisconnects, StartupNotice,
};
use kikisen_yomiyomi::managers::{
    manager_added_reply, manager_pages, manager_removed_reply, manager_target,
    whitelist_add_reply, whitelist_remove_reply, BotWhitelist, ManagerStore, WhitelistReply,
};
use kikisen_yomiyomi::registry::VoiceRegistry;
use kikisen_yomiyomi::settings::ManagerEntry;
use kikisen_yomiyomi::styles::{
    autocomplete_voice_style, build_voice_style_page_with_select, chosen_style,
    managed_speaker_choice, managed_speaker_message, server_speaker_update, shown_speaker,
    sort_styles, style_exists, style_id_of, style_label, user_speaker_update, ManagedSpeaker,
    SpeakerUpdate, VoiceStyleInfo,
};

fn style(character: &str, name: &str, id: u32) -> VoiceStyleInfo {
    VoiceStyleInfo::new(character.to_string(), name.to_string(), id)
}

fn styles() -> Vec<VoiceStyleInfo> {
    sort_styles(vec![
        style("ずんだもん", "ノーマル", 3),
        style("四国めたん", "ノーマル", 2),
        style("春日部つむぎ", "ノーマル", 8),
        style("四国めたん", "あまあま", 0),
    ])
}

#[test]
fn style_labels_and_ids() {
    let s = style("ずんだもん", "ノーマル", 3);
    assert_eq!(s.display_label, "ずんだもん（ノーマル）");
    assert_eq!(style_id_of("42"), 42);
    assert_eq!(style_id_of("x"), 0);
    assert_eq!(style_id_of("4294967296"), 0);
}

#[test]
fn styles_are_sorted_stably_by_id() {
    let sorted = sort_styles(vec![
        style("a", "1", 5),
        style("b", "1", 1),
        style("c", "1", 5),
        style("d", "1", 0),
        style("e", "1", 1),
    ]);
    let order: Vec<(String, u32)> = sorted.iter().map(|s| (s.character_name.clone(), s.style_id)).collect();
    assert_eq!(
        order,
        vec![
            ("d".to_string(), 0),
            ("b".to_string(), 1),
            ("e".to_string(), 1),
            ("a".to_string(), 5),
            ("c".to_string(), 5),
        ]
    );
    assert!(sort_styles(vec![]).is_empty());
}

#[test]
fn style_lookup() {
    let s = styles();
    assert!(style_exists(&s, 8));
    assert!(!style_exists(&s, 9));
    assert_eq!(style_label(&s, 2), "四国めたん（ノーマル）");
    assert_eq!(style_label(&s, 9), "不明");
    assert_eq!(shown_speaker(&s, Some(3)), "ずんだもん（ノーマル）");
    assert_eq!(shown_speaker(&s, Some(-1)), "（未設定）");
    assert_eq!(shown_speaker(&s, None), "（未設定）");
}

#[test]
fn style_pages_hold_24_each() {
    let many: Vec<VoiceStyleInfo> = (0..50u32).map(|i| style("c", &format!("s{i}"), i)).collect();
    let pages = build_voice_style_page_with_select(&many);
    assert_eq!(pages.len(), 3);
    assert_eq!(pages[0].fields.len(), 24);
    assert_eq!(pages[1].fields.len(), 24);
    assert_eq!(pages[2].fields.len(), 2);
    assert_eq!(pages[0].footer, "1/3 ページ　下のリストから話者を選択すると設定されます。");
    assert_eq!(pages[2].footer, "3/3 ページ　下のリストから話者を選択すると設定されます。");
    assert_eq!(pages[1].fields[0], ("c（s24）".to_string(), "`24`".to_string()));
    assert_eq!(pages[2].options[1], ("c（s49）".to_string(), "49".to_string()));
    assert!(build_voice_style_page_with_select(&vec![]).is_empty());
    let exactly = build_voice_style_page_with_select(&many[..24].iter().map(|s| style("c", &s.style_name, s.style_id)).collect());
    assert_eq!(exactly.len(), 1);
}

#[test]
fn style_completion() {
    let s = styles();
    let all = autocomplete_voice_style(&s, "");
    assert_eq!(all.len(), 4);
    assert_eq!(all[0], ("四国めたん（あまあま）".to_string(), 0));
    let m = autocomplete_voice_style(&s, "めたん");
    assert_eq!(m, vec![("四国めたん（あまあま）".to_string(), 0), ("四国めたん（ノーマル）".to_string(), 2)]);
    assert!(autocomplete_voice_style(&s, "存在しない").is_empty());
    let many: Vec<VoiceStyleInfo> = (0..30u32).map(|i| style("c", "n", i)).collect();
    let first = autocomplete_voice_style(&many, "c");
    assert_eq!(first.len(), 25);
    assert_eq!(first[24].1, 24);
}

#[test]
fn speaker_updates() {
    let s = styles();
    match user_speaker_update(&s, Some(9)) {
        SpeakerUpdate::Unknown(m) => assert_eq!(m, "ID `9` は存在しません。/voice_stylesで確認してください。"),
        _ => panic!(),
    }
    match user_speaker_update(&s, Some(3)) {
        SpeakerUpdate::Saved { speaker, message } => {
            assert_eq!(speaker, Some(3));
            assert_eq!(message, "話者を`ずんだもん（ノーマル）`に設定しました。");
        }
        _ => panic!(),
    }
    match user_speaker_update(&s, None) {
        SpeakerUpdate::Saved { speaker, message } => {
            assert_eq!(speaker, None);
            assert_eq!(message, "話者の設定を解除しました。\n（サーバーの既定値が使用されます。）");
        }
        _ => panic!(),
    }
    match server_speaker_update(&s, 9) {
        SpeakerUpdate::Unknown(m) => assert_eq!(m, "`9`は存在しません。/voice_stylesで確認してください。"),
        _ => panic!(),
    }
    match server_speaker_update(&s, 8) {
        SpeakerUpdate::Saved { speaker, message } => {
            assert_eq!(speaker, Some(8));
            assert_eq!(message, "サーバーのデフォルト話者を`春日部つむぎ（ノーマル）`に設定しました。");
        }
        _ => panic!(),
    }
}

#[test]
fn managed_speaker_choices() {
    let s = styles();
    assert!(matches!(managed_speaker_choice(&s, Some(true), Some(3)), ManagedSpeaker::Clear));
    assert!(matches!(managed_speaker_choice(&s, Some(false), Some(3)), ManagedSpeaker::Choose(3)));
    assert!(matches!(managed_speaker_choice(&s, None, None), ManagedSpeaker::ShowList));
    match managed_speaker_choice(&s, None, Some(77)) {
        ManagedSpeaker::Unknown(m) => assert_eq!(
            m,
            "ID`77`は存在しません。一覧を確認するにはstyle_idを指定せずにコマンドを実行してください。"
        ),
        _ => panic!(),
    }
    assert_eq!(chosen_style(Some("8".to_string())), Some(8));
    assert_eq!(chosen_style(Some("x".to_string())), None);
    assert_eq!(chosen_style(None), None);
    assert_eq!(managed_speaker_message(&s, "花子", Some(0)), "花子の話者を`四国めたん（あまあま）`に設定しました。");
    assert_eq!(managed_speaker_message(&s, "花子", None), "花子の話者の設定を解除しました。");
}

#[test]
fn saved_configuration_is_read_back() {
    let mut store = AutoConnectStore::new();
    store.save(1, 100, 7, &vec![100, 5, 6]);
    store.save(1, 200, 8, &vec![200]);
    assert_eq!(store.reading_channels(100), vec![100, 5, 6]);
    assert_eq!(store.find(100).map(|c| c.notify_channel_id), Some(7));
    store.save(1, 100, 9, &vec![100, 6]);
    assert_eq!(store.reading_channels(100), vec![100, 6]);
    assert_eq!(store.find(100).map(|c| c.notify_channel_id), Some(9));
    assert_eq!(store.reading_channels(200), vec![200]);
}

#[test]
fn removed_channel_is_forgotten() {
    let mut store = AutoConnectStore::new();
    store.save(1, 100, 7, &vec![100, 5]);
    store.save(1, 200, 8, &vec![200, 5]);
    store.remove_channel(100);
    assert!(store.find(100).is_none());
    assert!(store.reading_channels(100).is_empty());
    assert_eq!(store.reading_channels(200), vec![200, 5]);
    assert_eq!(store.connections().len(), 1);
    assert_eq!(store.connections()[&200].notify_channel_id, 8);
    assert_eq!(
        *store.targets(),
        vec![
            ReadingTarget { voice_channel_id: 200, text_channel_id: 200, guild_id: 1 },
            ReadingTarget { voice_channel_id: 200, text_channel_id: 5, guild_id: 1 },
        ]
    );
}

#[test]
fn config_dialog_keeps_voice_chat() {
    let mut d = ConfigDialog::new(100);
    assert_eq!(d.vc(), 100);
    assert_eq!(*d.reading(), vec![100]);
    assert!(matches!(d.step(ConfigEvent::ReadingSelected(Some(vec![5, 6])), "<#100>"), ConfigAction::Acknowledge));
    assert_eq!(*d.reading(), vec![5, 6, 100]);
    d.step(ConfigEvent::ReadingSelected(Some(vec![100, 5])), "<#100>");
    assert_eq!(*d.reading(), vec![100, 5]);
    d.step(ConfigEvent::ReadingSelected(None), "<#100>");
    assert_eq!(*d.reading(), vec![100, 5]);
}

#[test]
fn config_dialog_needs_notice_channel() {
    let mut d = ConfigDialog::new(100);
    match d.step(ConfigEvent::SavePressed, "<#100>") {
        ConfigAction::NeedNotify(m) => assert_eq!(m, "通知送信チャンネルを選択してください。"),
        _ => panic!(),
    }
    d.step(ConfigEvent::NotifySelected(Some(vec![7, 8])), "<#100>");
    assert_eq!(d.notify(), Some(7));
    match d.step(ConfigEvent::SavePressed, "<#100>") {
        ConfigAction::Save { notify, reading, reply } => {
            assert_eq!(notify, 7);
            assert_eq!(reading, vec![100]);
            assert_eq!(reply, "<#100>の設定を保存しました。");
        }
        _ => panic!(),
    }
    match d.step(ConfigEvent::CancelPressed, "<#100>") {
        ConfigAction::Cancelled(m) => assert_eq!(m, "設定を中断しました。"),
        _ => panic!(),
    }
    assert!(matches!(d.step(ConfigEvent::TimedOut, "<#100>"), ConfigAction::Stop));
    d.step(ConfigEvent::NotifySelected(Some(vec![])), "<#100>");
    assert_eq!(d.notify(), None);
}

#[test]
fn auto_connect_prompts() {
    assert_eq!(auto_connect_prompt("<#1>", true), "<#1>は既に自動接続の対象です。操作を選択してください。");
    assert_eq!(auto_connect_prompt("<#1>", false), "<#1>を自動接続の対象に追加します。設定を入力してください。");
    match existing_choice(Some(true), "<#1>") {
        ExistingChoice::Delete(m) => assert_eq!(m, "<#1>を自動接続対象から削除しました。"),
        _ => panic!(),
    }
    match existing_choice(Some(false), "<#1>") {
        ExistingChoice::Edit(m) => assert_eq!(m, "<#1>の設定を編集します。設定を入力してください。"),
        _ => panic!(),
    }
    match existing_choice(None, "<#1>") {
        ExistingChoice::TimedOut(m) => assert_eq!(m, "タイムアウトしました。"),
        _ => panic!(),
    }
}

#[test]
fn auto_join_when_first_member_enters() {
    let mut store = AutoConnectStore::new();
    store.save(1, 100, 7, &vec![100, 5]);
    let j = auto_join_plan(&store, Some(100), 1).expect("joins");
    assert_eq!((j.voice_channel, j.notify_channel), (100, 7));
    assert_eq!(j.reading, vec![100, 5]);
    let c = auto_join_context(&j);
    assert_eq!(c.command_channel, 7);
    assert!(c.text_channels.contains(&5) && c.text_channels.contains(&100));
    assert!(auto_join_plan(&store, Some(100), 2).is_none());
    assert!(auto_join_plan(&store, Some(101), 1).is_none());
    assert!(auto_join_plan(&store, None, 1).is_none());
    assert_eq!(auto_join_description(100), "<#100>に接続しました");
}

#[test]
fn connect_and_disconnect_decisions() {
    match connect_decision(None, None) {
        ConnectDecision::NeedVoiceChannel(m) => assert_eq!(m, "このコマンドを使用するには先にVCに参加してください。"),
        _ => panic!(),
    }
    match connect_decision(Some(5), Some(Some(6))) {
        ConnectDecision::AskToMove(m) => assert_eq!(m, "別のボイスチャンネルに既に参加しています。移動しますか？"),
        _ => panic!(),
    }
    assert!(matches!(connect_decision(Some(5), Some(None)), ConnectDecision::Join(5)));
    assert!(matches!(connect_decision(Some(5), None), ConnectDecision::Join(5)));
    assert_eq!(move_reply(true), "ボイスチャンネルを移動しました。");
    assert_eq!(move_reply(false), "タイムアウトしました。");
    let n = connect_notice(5, 9);
    assert_eq!(n.title, "<#5>に接続しました。");
    assert_eq!(n.notify, "<#9>");
    assert_eq!(n.reading, "<#9> <#5>");
    assert!(matches!(disconnect_decision(Some(5), Some(Some(5))), DisconnectDecision::Leave));
    assert!(matches!(disconnect_decision(Some(5), None), DisconnectDecision::Nothing));
    match disconnect_decision(Some(5), Some(Some(6))) {
        DisconnectDecision::NotSameChannel(m) => assert_eq!(m, "botと同じVCに参加していないので、使用できません。"),
        _ => panic!(),
    }
    match disconnect_decision(Some(5), Some(None)) {
        DisconnectDecision::BotNotConnected(m) => assert_eq!(m, "botがVCに参加していません。"),
        _ => panic!(),
    }
    assert!(matches!(disconnect_decision(None, Some(Some(5))), DisconnectDecision::NotSameChannel(_)));
}

#[test]
fn bot_leaving_forgets_its_channel() {
    assert_eq!(channel_left_by_bot(Some(5), None, true), Some(5));
    assert_eq!(channel_left_by_bot(Some(5), Some(6), true), None);
    assert_eq!(channel_left_by_bot(Some(5), None, false), None);
    let mut r = VoiceRegistry::new();
    r.join(None, 5, 1);
    assert_eq!(forget_channel_left_by_bot(&mut r, Some(5), None, true), Some(5));
    assert!(r.command_channel(5).is_none());
}

#[test]
fn names_and_speech() {
    assert_eq!(bot_display_name(Some("よみよみ".to_string()), "bot".to_string()), "よみよみ");
    assert_eq!(bot_display_name(None, "bot".to_string()), "bot");
    assert_eq!(joined_speech("よみよみ"), "よみよみが参加しました");
    assert_eq!(reconnected_speech("よみよみ"), "よみよみが接続しました");
}

#[test]
fn one_pending_disconnect_per_channel() {
    let mut p: PendingDisconnects<&str> = PendingDisconnects::new();
    assert!(p.needs_schedule(5));
    p.record(5, "timer");
    assert!(!p.needs_schedule(5));
    assert!(p.needs_schedule(6));
    assert_eq!(p.cancel(5), Some("timer"));
    assert_eq!(p.cancel(5), None);
    assert!(p.needs_schedule(5));
    p.record(6, "t2");
    p.finish(6);
    assert!(p.needs_schedule(6));
    assert!(leaves_after_wait(0));
    assert!(!leaves_after_wait(1));
    assert!(schedule_needed(true, 0));
    assert!(!schedule_needed(true, 2));
    assert!(!schedule_needed(false, 0));
}

#[test]
fn restart_state() {
    let mut r = VoiceRegistry::new();
    r.join(None, 100, 7);
    r.join(None, 200, 7);
    r.join(None, 300, 8);
    let calls = vec![(1, Some(100)), (2, None), (3, Some(200)), (4, Some(999)), (5, Some(300))];
    let entries = restart_entries(&calls, &r);
    let kept: Vec<(u64, u64, u64)> = entries.iter().map(|e| (e.guild_id, e.voice_channel_id, e.context.command_channel)).collect();
    assert_eq!(kept, vec![(1, 100, 7), (3, 200, 7), (5, 300, 8)]);
    assert_eq!(notify_channels_once(&entries), vec![7, 8]);
    assert_eq!(
        restart_notice(),
        "restartコマンドが実行されたのでbotを再起動します。\n再起動後に自動でボイスチャンネルに再接続します。"
    );
    assert!(should_reconnect(1));
    assert!(!should_reconnect(0));
    assert_eq!(reconnect_description(100), "<#100>に再接続しました。");
    assert_eq!(
        reconnect_failed_description("boom"),
        "bot再起動後の自動での再接続に失敗しました。: boom \n/vc connectコマンドを使用してbotをVCに参加させてください。"
    );
}

#[test]
fn startup_notice_and_developer() {
    assert!(matches!(startup_notice(None, "bot"), StartupNotice::NotConfigured));
    assert!(matches!(startup_notice(Some("abc".to_string()), "bot"), StartupNotice::Invalid));
    match startup_notice(Some("123".to_string()), "bot") {
        StartupNotice::Send { channel, text } => {
            assert_eq!(channel, 123);
            assert_eq!(text, "起動完了: bot");
        }
        _ => panic!(),
    }
    assert!(check_is_developer(42, Some("42".to_string())));
    assert!(!check_is_developer(42, Some("43".to_string())));
    assert!(!check_is_developer(42, Some("x".to_string())));
    assert!(!check_is_developer(42, None));
}

#[test]
fn managers_add_then_remove() {
    let mut m = ManagerStore::new();
    assert!(m.add(1, 10, false));
    assert!(!m.add(1, 10, true));
    assert!(m.add(1, 20, true));
    assert!(m.add(2, 10, false));
    assert!(m.contains(1, 10));
    assert_eq!(m.managers_in(1).len(), 2);
    assert!(m.remove(1, 10));
    assert!(!m.contains(1, 10));
    assert!(m.contains(2, 10));
    assert!(!m.remove(1, 10));
    assert_eq!(m.managers_in(1).iter().map(|e| e.manager_id).collect::<Vec<_>>(), vec![20]);
}

#[test]
fn manager_requests_and_replies() {
    assert!(manager_target(Some((1, "a".to_string())), Some((2, "r".to_string()))).is_err());
    assert_eq!(
        manager_target(None, None).err().as_deref(),
        Some("ユーザーまたはロールのどちらか一方を指定してください。")
    );
    assert_eq!(manager_target(Some((1, "a".to_string())), None).ok(), Some((1, false, "a".to_string())));
    assert_eq!(manager_target(None, Some((2, "r".to_string()))).ok(), Some((2, true, "r".to_string())));
    assert_eq!(manager_added_reply(true, "花子"), "`花子`をサーバー設定の管理者に追加しました。");
    assert_eq!(manager_added_reply(false, "花子"), "このユーザーまたはロールは既に管理者に追加されています。");
    assert_eq!(manager_removed_reply(true, "花子"), "`花子`をサーバー設定の管理者から削除しました。");
    assert_eq!(manager_removed_reply(false, "花子"), "このユーザーまたはロールは管理者ではありません。");
}

#[test]
fn manager_list_pages() {
    let entries: Vec<ManagerEntry> = (0..26i64).map(|i| ManagerEntry { guild_id: 1, manager_id: i + 1, is_role: i % 2 == 1 }).collect();
    let pages = manager_pages(&entries);
    assert_eq!(pages.len(), 2);
    assert_eq!(pages[0].len(), 25);
    assert_eq!(pages[1], vec!["<@&26>".to_string()]);
    assert_eq!(pages[0][1], "<@&2>");
    assert!(manager_pages(&vec![]).is_empty());
}

#[test]
fn whitelist_add_then_remove() {
    let mut w = BotWhitelist::new();
    assert!(w.add(1, 50));
    assert!(!w.add(1, 50));
    assert!(w.add(2, 50));
    assert!(w.contains(1, 50));
    assert_eq!(w.bots_in(1), vec![50]);
    assert!(w.remove(1, 50));
    assert!(!w.contains(1, 50));
    assert!(w.contains(2, 50));
    assert!(!w.remove(1, 50));
    match whitelist_add_reply(false, false, "b") {
        WhitelistReply::NotABot(m) => assert_eq!(m, "指定されたユーザーはbotではありません。"),
        _ => panic!(),
    }
    match whitelist_add_reply(true, true, "b") {
        WhitelistReply::Done(m) => assert_eq!(m, "`b`をホワイトリストに登録しました。"),
        _ => panic!(),
    }
    match whitelist_add_reply(true, false, "b") {
        WhitelistReply::Done(m) => assert_eq!(m, "`b`は既に登録されています。"),
        _ => panic!(),
    }
    assert_eq!(whitelist_remove_reply(true, "b"), "`b`をホワイトリストから削除しました。");
    assert_eq!(whitelist_remove_reply(false, "b"), "`b`は登録されていません。");
}

#[test]
fn stores_are_restored() {
    let conns = vec![
        AutoConnection { voice_channel_id: 100, guild_id: 1, notify_channel_id: 7 },
        AutoConnection { voice_channel_id: 100, guild_id: 1, notify_channel_id: 9 },
    ];
    let rows = vec![ReadingTarget { voice_channel_id: 100, text_channel_id: 5, guild_id: 1 }];
    let store = AutoConnectStore::restore(conns, rows);
    assert_eq!(store.find(100).map(|c| c.notify_channel_id), Some(9));
    assert_eq!(store.reading_channels(100), vec![5]);
    let m = ManagerStore::restore(vec![
        ManagerEntry { guild_id: 1, manager_id: 10, is_role: false },
        ManagerEntry { guild_id: 1, manager_id: 10, is_role: true },
        ManagerEntry { guild_id: 1, manager_id: 11, is_role: true },
    ]);
    assert_eq!(m.entries().len(), 2);
    assert!(m.contains(1, 10) && m.contains(1, 11));
    assert!(!m.entries()[0].is_role);
}
