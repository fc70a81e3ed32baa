use kikisen_yomiyomi::emoji::demojize;
use kikisen_yomiyomi::kana::{apply_kanalizer, kana_targets};
use kikisen_yomiyomi::markdown::{reveal_spoilers, sanitize_text};
use kikisen_yomiyomi::message::{
    add_author_name, add_embed_texts, clean_text, describe_attachment, display_name, formats_ok,
    format_message_checked, spoken_text,
    embed_to_text, format_message, message_action, EmbedInfo, MessageAction, MessageFacts,
    MessageInfo, UserRef,
};
use kikisen_yomiyomi::settings::GuildSettings;

fn user(id: u64, name: &str, global: Option<&str>, member: Option<&str>) -> UserRef {
    UserRef {
        id,
        name: name.to_string(),
        global_name: global.map(|s| s.to_string()),
        member_display_name: member.map(|s| s.to_string()),
    }
}

fn message(content: &str, author: UserRef) -> MessageInfo {
    MessageInfo {
        content: content.to_string(),
        guild_cached: true,
        author,
        referenced: None,
        forwarded: false,
        mentions: vec![],
        roles: vec![],
        channels: vec![],
        sticker_names: vec![],
        attachment_types: vec![],
    }
}

fn facts() -> MessageFacts {
    MessageFacts {
        in_guild: true,
        is_reading_target: true,
        author_is_bot: false,
        whitelisted: false,
        is_silent: false,
        author_in_vc: true,
        author_server_muted: false,
        bot_mentioned: false,
    }
}

#[test]
fn display_names() {
    assert_eq!(display_name(&user(1, "taro", Some("Taro"), Some("たろう"))), "たろう");
    assert_eq!(display_name(&user(1, "taro", Some("Taro"), None)), "Taro");
    assert_eq!(display_name(&user(1, "taro", None, None)), "taro");
    assert_eq!(display_name(&user(1, "taro", Some("Taro"), Some("taro"))), "Taro");
}

#[test]
fn sanitize_text_replaces_markup() {
    assert_eq!(sanitize_text("見て https://example.com/a です"), "見て URL です");
    assert_eq!(sanitize_text("http://x.y"), "URL");
    assert_eq!(sanitize_text("> 引用文"), "引用 引用文");
    assert_eq!(sanitize_text(">>>三重"), "引用 三重");
    assert_eq!(sanitize_text("a\n> b"), "a\n引用 b");
    assert_eq!(sanitize_text("||秘密||だよ"), "スポイラーだよ");
    assert_eq!(sanitize_text("```rust\nfn main(){}\n```"), "コードブロック rust");
    assert_eq!(sanitize_text("```\ncode\n```後"), "コードブロック後");
    assert_eq!(sanitize_text("ふつうの文"), "ふつうの文");
}

#[test]
fn spoilers_are_revealed_when_read() {
    assert_eq!(reveal_spoilers("||秘密||だよ"), "秘密だよ");
    assert_eq!(clean_text("||秘密||だよ", true), "秘密だよ");
    assert_eq!(clean_text("||秘密||だよ", false), "スポイラーだよ");
}

#[test]
fn attachments_are_described_by_kind() {
    assert_eq!(describe_attachment(Some("image/png")), "画像ファイル");
    assert_eq!(describe_attachment(Some("video/mp4")), "動画ファイル");
    assert_eq!(describe_attachment(Some("audio/ogg")), "音声ファイル");
    assert_eq!(describe_attachment(Some("application/pdf")), "添付ファイル");
    assert_eq!(describe_attachment(Some("image")), "添付ファイル");
    assert_eq!(describe_attachment(None), "添付ファイル");
}

#[test]
fn format_plain_message() {
    let m = message("こんにちは", user(1, "a", None, None));
    assert_eq!(format_message(&m, 2), "こんにちは");
}

#[test]
fn format_replaces_mentions() {
    let mut m = message("<@5> と <@!5> へ <@&7> で <#9> <#10>", user(1, "a", None, None));
    m.mentions = vec![user(5, "hanako", Some("Hanako"), None)];
    m.roles = vec![(7, "運営".to_string())];
    m.channels = vec![(9, "雑談".to_string())];
    assert_eq!(
        format_message(&m, 0),
        "あっとHanako と あっとHanako へ あっと運営 で 雑談 不明なチャンネル"
    );
    let mut m = message("<@&8>", user(1, "a", None, None));
    m.roles = vec![(7, "運営".to_string())];
    assert_eq!(format_message(&m, 0), "不明なロール");
}

#[test]
fn format_custom_emoji_stickers_and_attachments() {
    let mut m = message("<:smile_cat:123456> ok", user(1, "a", None, None));
    m.sticker_names = vec!["ねこ".to_string(), "いぬ".to_string()];
    m.attachment_types = vec![Some("image/png".to_string()), None];
    assert_eq!(format_message(&m, 0), "smile_cat ok ねこ いぬ 画像ファイル 添付ファイル");
    let mut m = message("", user(1, "a", None, None));
    m.attachment_types = vec![Some("audio/mpeg".to_string())];
    assert_eq!(format_message(&m, 0), "音声ファイル");
}

#[test]
fn format_reply_prefixes() {
    let replied = message("元のメッセージです", user(2, "jiro", Some("Jiro"), Some("じろう")));
    let mut m = message("はい", user(1, "a", None, None));
    m.referenced = Some(Box::new(replied));
    assert_eq!(format_message(&m, 0), "はい");
    assert_eq!(format_message(&m, 1), "返信 はい");
    assert_eq!(format_message(&m, 2), "じろうへの返信 はい");
    assert_eq!(format_message(&m, 3), "じろうの「元のメッセージです」への返信 はい");
    assert_eq!(format_message(&m, 7), "じろうへの返信はい");
}

#[test]
fn format_reply_preview_is_cut_and_cleaned() {
    let long = "あいうえおかきくけこさしすせそたちつてとなにぬねの";
    let replied = message(long, user(2, "jiro", None, None));
    let mut m = message("うん", user(1, "a", None, None));
    m.referenced = Some(Box::new(replied));
    assert_eq!(
        format_message(&m, 3),
        "jiroの「あいうえおかきくけこさしすせそたちつてと」への返信 うん"
    );
    let mut m = message("うん", user(1, "a", None, None));
    m.referenced = Some(Box::new(message("", user(2, "jiro", None, None))));
    assert_eq!(format_message(&m, 3), "jiroへの返信 うん");
}

#[test]
fn format_forwarded_message() {
    let mut m = message("転送内容", user(1, "a", None, None));
    m.forwarded = true;
    assert_eq!(format_message(&m, 0), "転送転送内容");
}

#[test]
fn emoji_are_read_by_name() {
    assert_eq!(demojize("絵文字なし"), "絵文字なし");
    let r = demojize("a😀b");
    assert!(r.starts_with("a "));
    assert!(r.ends_with(" b"));
    assert!(!r.contains('😀'));
    assert!(r.len() > "a  b".len());
}

#[test]
fn kana_words_and_acronyms() {
    assert_eq!(kana_targets("Hello NASA world 123"), vec!["hello", "world"]);
    let table = vec![
        ("hello".to_string(), "はろー".to_string()),
        ("world".to_string(), "わーるど".to_string()),
    ];
    assert_eq!(apply_kanalizer("Hello NASA world!", &table), "はろー NASA わーるど!");
    assert_eq!(apply_kanalizer("unknown word", &table), "unknown word");
    assert_eq!(apply_kanalizer("日本語だけ", &vec![]), "日本語だけ");
}

#[test]
fn embeds_are_read_in_order() {
    let e = EmbedInfo {
        author_name: Some("作者".to_string()),
        title: Some("題 https://x.y".to_string()),
        fields: vec![
            ("名前".to_string(), "値".to_string()),
            ("".to_string(), "値だけ".to_string()),
            ("名前だけ".to_string(), "".to_string()),
            ("".to_string(), "".to_string()),
        ],
        footer: Some("".to_string()),
        timestamp: Some(1700000000),
    };
    assert_eq!(embed_to_text(&e), "作者 題 URL 名前 値 値だけ 名前だけ 1700000000");
    let empty = EmbedInfo { author_name: None, title: None, fields: vec![], footer: None, timestamp: None };
    assert_eq!(embed_to_text(&empty), "");
}

#[test]
fn embed_texts_and_author_name() {
    assert_eq!(add_embed_texts("本文".to_string(), &vec!["".to_string(), "埋め込み".to_string()]), "本文 埋め込み");
    assert_eq!(add_embed_texts("".to_string(), &vec!["a".to_string(), "b".to_string()]), "a b");
    assert_eq!(add_embed_texts("本文".to_string(), &vec!["".to_string()]), "本文");
    assert_eq!(add_author_name("こんにちは".to_string(), "たろう"), "たろうのメッセージ こんにちは");
    assert_eq!(add_author_name("".to_string(), "たろう"), "");
}

#[test]
fn message_actions() {
    let s = GuildSettings::default_for_guild(1);
    assert_eq!(message_action(facts(), &s, "やあ"), MessageAction::Read);
    assert_eq!(message_action(facts(), &s, "s"), MessageAction::SkipTrack);
    let mut f = facts();
    f.is_reading_target = false;
    assert_eq!(message_action(f, &s, "やあ"), MessageAction::Ignore);
    let mut f = facts();
    f.in_guild = false;
    assert_eq!(message_action(f, &s, "やあ"), MessageAction::Ignore);
    let mut f = facts();
    f.author_is_bot = true;
    assert_eq!(message_action(f, &s, "やあ"), MessageAction::Ignore);
    f.whitelisted = true;
    assert_eq!(message_action(f, &s, "やあ"), MessageAction::Read);
}

#[test]
fn message_actions_follow_settings() {
    let mut s = GuildSettings::default_for_guild(1);
    let mut f = facts();
    f.is_silent = true;
    assert_eq!(message_action(f, &s, "x"), MessageAction::Read);
    s.read_silent = false;
    assert_eq!(message_action(f, &s, "x"), MessageAction::Ignore);
    let mut s = GuildSettings::default_for_guild(1);
    let mut f = facts();
    f.author_in_vc = false;
    assert_eq!(message_action(f, &s, "x"), MessageAction::Read);
    s.read_non_vc_user = false;
    assert_eq!(message_action(f, &s, "x"), MessageAction::Ignore);
    let mut s = GuildSettings::default_for_guild(1);
    let mut f = facts();
    f.author_server_muted = true;
    assert_eq!(message_action(f, &s, "x"), MessageAction::Ignore);
    s.read_server_muted = true;
    assert_eq!(message_action(f, &s, "x"), MessageAction::Read);
}

#[test]
fn only_mentions_are_read_when_so_set() {
    let mut s = GuildSettings::default_for_guild(1);
    assert!(!s.read_only_mentioned);
    let mut f = facts();
    assert_eq!(message_action(f, &s, "やあ"), MessageAction::Read);
    s.read_only_mentioned = true;
    assert_eq!(message_action(f, &s, "やあ"), MessageAction::Ignore);
    assert_eq!(message_action(f, &s, "s"), MessageAction::SkipTrack);
    f.bot_mentioned = true;
    assert_eq!(message_action(f, &s, "やあ"), MessageAction::Read);
    assert_eq!(message_action(f, &s, "s"), MessageAction::SkipTrack);
    f.author_server_muted = true;
    assert_eq!(message_action(f, &s, "やあ"), MessageAction::Ignore);
}

#[test]
fn role_mentions_outside_a_known_guild_are_unknown_roles() {
    let mut m = message("<@&0> と <@&5>", user(1, "a", None, None));
    m.guild_cached = false;
    m.roles = vec![(5, "司会".to_string())];
    assert!(formats_ok(&m, 0));
    assert_eq!(format_message(&m, 0), "不明なロール と 不明なロール");
    m.guild_cached = true;
    assert!(!formats_ok(&m, 0));
    m.content = "<@&5>".to_string();
    assert!(formats_ok(&m, 0));
    assert_eq!(format_message(&m, 0), "あっと司会");
}

#[test]
fn mentions_that_cannot_be_looked_up() {
    let m = message("<@&0> です", user(1, "a", None, None));
    assert!(!formats_ok(&m, 0));
    assert_eq!(format_message_checked(&m, 0), None);
    let m = message("<#99999999999999999999>", user(1, "a", None, None));
    assert!(!formats_ok(&m, 0));
    let m = message("<#12> と <@&3>", user(1, "a", None, None));
    assert!(formats_ok(&m, 0));
    assert_eq!(format_message_checked(&m, 0).as_deref(), Some("不明なチャンネル と 不明なロール"));
    let mut reply = message("ok", user(1, "a", None, None));
    reply.referenced = Some(Box::new(message("<@&0>", user(2, "b", None, None))));
    assert!(formats_ok(&reply, 2));
    assert!(!formats_ok(&reply, 3));
}

#[test]
fn plain_text_is_read_as_written() {
    for text in ["今日はいい天気です。明日も晴れ", "hello world 123", "", "a\nb\tc"] {
        assert_eq!(sanitize_text(text), text);
    }
}

#[test]
fn mention_digits_follow_the_regex_digit_class() {
    let mut m = message("<@&٣> <@&x> <#१२>", user(1, "a", None, None));
    m.guild_cached = false;
    assert!(!formats_ok(&m, 0));
    m.content = "<@&٣> <@&x>".to_string();
    assert!(formats_ok(&m, 0));
    assert_eq!(format_message(&m, 0), "不明なロール <@&x>");
    m.guild_cached = true;
    assert!(!formats_ok(&m, 0));
}

#[test]
fn spoken_text_follows_settings() {
    let mut s = GuildSettings::default_for_guild(1);
    let embeds = vec!["埋め込み".to_string(), "".to_string()];
    s.read_embed = false;
    s.read_username = false;
    assert_eq!(spoken_text("本文".to_string(), &s, &embeds, "たろう").as_deref(), Some("本文"));
    s.read_embed = true;
    assert_eq!(spoken_text("本文".to_string(), &s, &embeds, "たろう").as_deref(), Some("本文 埋め込み"));
    s.read_username = true;
    assert_eq!(
        spoken_text("本文".to_string(), &s, &embeds, "たろう").as_deref(),
        Some("たろうのメッセージ 本文 埋め込み")
    );
    assert_eq!(spoken_text("".to_string(), &s, &vec![], "たろう"), None);
    s.read_embed = false;
    assert_eq!(spoken_text("".to_string(), &s, &embeds, "たろう"), None);
}
