use kikisen_yomiyomi::music::{
    duration_footer, fallback_video_item, format_duration, music_item_from_file,
    music_item_from_ytdl, now_playing_description, option_label, parse_seek_request,
    parse_time_to_secs, pause_toggle, play_request, queue_added_description, read_seek_input,
    release_year, search_options, search_results_heading, seek_done_message, seek_input_fits,
    time_fits_u64, seek_position, selected_item, skip_reply, unknown_ytdl_info, with_requester,
    MusicItem, MusicState, PauseAction, PlayMode, PlayRequest, SeekInput, SeekRequest, SkipDecision,
    YtdlOutput,
};
use kikisen_yomiyomi::synthesis::split_text_for_synthesis;
use kikisen_yomiyomi::text::{decimal_string, parse_u32, parse_u64};

fn ytdl(title: &str, url: &str) -> YtdlOutput {
    YtdlOutput {
        title: title.to_string(),
        webpage_url: url.to_string(),
        uploader: Some("uploader".to_string()),
        duration: Some(215),
        thumbnail: Some("https://img.example/t.jpg".to_string()),
        upload_date: Some("20240131".to_string()),
    }
}

#[test]
fn format_duration_under_an_hour() {
    assert_eq!(format_duration(0), "0:00");
    assert_eq!(format_duration(59), "0:59");
    assert_eq!(format_duration(61), "1:01");
    assert_eq!(format_duration(3599), "59:59");
}

#[test]
fn format_duration_counts_minutes_past_an_hour() {
    assert_eq!(format_duration(3600), "60:00");
    assert_eq!(format_duration(3661), "61:01");
    assert_eq!(format_duration(3725), "62:05");
    assert_eq!(format_duration(36000 + 59), "600:59");
}

#[test]
fn parse_time_to_secs_forms() {
    assert_eq!(parse_time_to_secs("90"), Some(90));
    assert_eq!(parse_time_to_secs("1:30"), Some(90));
    assert_eq!(parse_time_to_secs("1:02:03"), Some(3723));
    assert_eq!(parse_time_to_secs("+7"), Some(7));
}

#[test]
fn parse_time_to_secs_rejects() {
    assert_eq!(parse_time_to_secs(""), None);
    assert_eq!(parse_time_to_secs("abc"), None);
    assert_eq!(parse_time_to_secs("1:2:3:4"), None);
    assert_eq!(parse_time_to_secs("1::2"), None);
    assert_eq!(parse_time_to_secs("-5"), None);
}

#[test]
fn seek_requests() {
    assert_eq!(parse_seek_request("1:30"), Some(SeekRequest::To(90)));
    assert_eq!(parse_seek_request("+10"), Some(SeekRequest::Forward(10)));
    assert_eq!(parse_seek_request("-1:00"), Some(SeekRequest::Backward(60)));
    assert_eq!(parse_seek_request("x"), None);
    assert_eq!(parse_seek_request("+"), None);
}

#[test]
fn seek_positions() {
    assert_eq!(seek_position(SeekRequest::To(90), 10, 500), (90, 0));
    assert_eq!(seek_position(SeekRequest::Forward(10), 20, 500), (30, 500));
    assert_eq!(seek_position(SeekRequest::Backward(10), 20, 500), (10, 500));
    assert_eq!(seek_position(SeekRequest::Backward(30), 20, 500), (0, 0));
}

#[test]
fn seek_done_messages() {
    assert_eq!(seek_done_message(125), "再生位置を `2:05` に変更しました");
    assert_eq!(seek_done_message(3605), "再生位置を `60:05` に変更しました");
}

#[test]
fn parse_unsigned_numbers() {
    assert_eq!(parse_u64("42"), Some(42));
    assert_eq!(parse_u64("+42"), Some(42));
    assert_eq!(parse_u64("18446744073709551615"), Some(u64::MAX));
    assert_eq!(parse_u64("18446744073709551616"), None);
    assert_eq!(parse_u64(""), None);
    assert_eq!(parse_u64("4a"), None);
    assert_eq!(parse_u32("4294967296"), None);
    assert_eq!(parse_u32("4294967295"), Some(u32::MAX));
    assert_eq!(decimal_string(0), "0");
    assert_eq!(decimal_string(1234567890), "1234567890");
}

#[test]
fn split_text_for_synthesis_splits_and_trims() {
    assert_eq!(
        split_text_for_synthesis("こんにちは。 元気？ はい!\n"),
        vec!["こんにちは".to_string(), "元気".to_string(), "はい".to_string()]
    );
    assert_eq!(split_text_for_synthesis("。、？！"), Vec::<String>::new());
    assert_eq!(split_text_for_synthesis("a,b.c"), vec!["a", "b", "c"]);
}

#[test]
fn split_text_for_synthesis_shortens_long_pieces() {
    let long: String = "あ".repeat(151);
    let pieces = split_text_for_synthesis(&long);
    assert_eq!(pieces.len(), 1);
    assert_eq!(pieces[0], format!("{} 省略", "あ".repeat(150)));
    let exact: String = "い".repeat(150);
    assert_eq!(split_text_for_synthesis(&exact), vec![exact.clone()]);
}

#[test]
fn release_years() {
    assert_eq!(release_year(Some("20240131")), Some(2024));
    assert_eq!(release_year(Some("1999-12-31")), Some(1999));
    assert_eq!(release_year(Some("199")), None);
    assert_eq!(release_year(Some("abcd")), None);
    assert_eq!(release_year(None), None);
}

#[test]
fn music_item_from_ytdl_copies_fields() {
    let item = music_item_from_ytdl(&ytdl("曲", "https://youtu.be/x"));
    assert_eq!(item.url, "https://youtu.be/x");
    assert_eq!(item.title, "曲");
    assert_eq!(item.artist.as_deref(), Some("uploader"));
    assert_eq!(item.album, None);
    assert_eq!(item.release_year, Some(2024));
    assert_eq!(item.duration, Some(215));
    assert_eq!(item.thumbnail.as_deref(), Some("https://img.example/t.jpg"));
    assert!(item.albumart.is_none());
    assert!(item.is_ytdl);
}

#[test]
fn unknown_info_and_fallback_item() {
    let info = unknown_ytdl_info("https://example.com/v");
    assert_eq!(info.title, "不明なタイトル");
    assert_eq!(info.webpage_url, "https://example.com/v");
    let item = fallback_video_item("https://example.com/v");
    assert_eq!(item.title, "Youtube Video");
    assert_eq!(item.url, "https://example.com/v");
    assert!(item.is_ytdl);
}

#[test]
fn file_item_takes_file_name_without_title() {
    let item = music_item_from_file("https://cdn/x.mp3", "x.mp3", None, None, None, None, Some(3), None);
    assert_eq!(item.title, "x.mp3");
    assert!(!item.is_ytdl);
    let item = music_item_from_file(
        "https://cdn/x.mp3",
        "x.mp3",
        Some("Title".to_string()),
        Some("Artist".to_string()),
        Some("Album".to_string()),
        Some(2001),
        None,
        Some(vec![1, 2, 3]),
    );
    assert_eq!(item.title, "Title");
    assert_eq!(item.albumart, Some(vec![1, 2, 3]));
}

#[test]
fn descriptions_of_items() {
    let item = music_item_from_file(
        "u",
        "f",
        Some("Song".to_string()),
        Some("Band".to_string()),
        Some("Record".to_string()),
        Some(1987),
        Some(3725),
        None,
    );
    assert_eq!(now_playing_description(&item), "Song ― Band（Record）");
    assert_eq!(queue_added_description(&item), "Song ― Band / Record (1987)");
    assert_eq!(duration_footer(&item), Some("62:05".to_string()));
    let bare = fallback_video_item("u");
    assert_eq!(now_playing_description(&bare), "Youtube Video");
    assert_eq!(queue_added_description(&bare), "Youtube Video");
    assert_eq!(duration_footer(&bare), None);
}

#[test]
fn option_labels_are_shortened() {
    assert_eq!(option_label("short"), "short");
    let long = "x".repeat(96);
    assert_eq!(option_label(&long), format!("{}...", "x".repeat(95)));
    let exact = "y".repeat(95);
    assert_eq!(option_label(&exact), exact);
}

#[test]
fn play_requests() {
    assert!(matches!(play_request(true, true, Some("http://x".to_string())), PlayRequest::File));
    match play_request(true, false, Some("https://youtu.be/a".to_string())) {
        PlayRequest::Url(u) => assert_eq!(u, "https://youtu.be/a"),
        _ => panic!("expected a URL"),
    }
    match play_request(true, false, Some("lofi beats".to_string())) {
        PlayRequest::Search(w) => assert_eq!(w, "lofi beats"),
        _ => panic!("expected a search"),
    }
    match play_request(true, false, Some("htt".to_string())) {
        PlayRequest::Search(w) => assert_eq!(w, "htt"),
        _ => panic!("expected a search"),
    }
    match play_request(true, false, None) {
        PlayRequest::Missing(m) => assert_eq!(m, "ファイル、検索ワード、URLのいずれかを指定してください。"),
        _ => panic!("expected the request for something to play"),
    }
}

#[test]
fn play_is_refused_when_music_is_disabled() {
    for (file, query) in [(true, None), (false, Some("lofi".to_string())), (false, None)] {
        match play_request(false, file, query) {
            PlayRequest::Disabled(m) => assert_eq!(m, "音楽再生機能が無効になっています。"),
            _ => panic!("expected the refusal"),
        }
    }
    let mut state: MusicState<u32> = MusicState::new(100);
    assert_eq!(state.enqueue_if_enabled(item("a"), false), None);
    assert!(state.queue.is_empty());
    assert_eq!(state.current_track, None);
    assert_eq!(state.enqueue_if_enabled(item("a"), true), Some(true));
    state.set_current(3, None);
    assert_eq!(state.enqueue_if_enabled(item("b"), false), None);
    assert_eq!(state.queue.len(), 1);
    assert_eq!(state.current_track, Some(3));
    assert_eq!(state.enqueue_if_enabled(item("b"), true), Some(false));
    assert_eq!(state.queue.len(), 2);
}

#[test]
fn skipping_others_tracks_can_be_restricted() {
    let mut state: MusicState<u32> = MusicState::new(100);
    match state.skip_decision(true, 5) {
        SkipDecision::NotPlaying(m) => assert_eq!(m, "再生していません"),
        _ => panic!("nothing plays"),
    }
    let asked = with_requester(item("a"), 5);
    assert_eq!(asked.requested_by, Some(5));
    assert_eq!(asked.url, "a");
    assert!(state.enqueue(asked));
    let next = state.advance().unwrap();
    state.set_current(1, next.requested_by);
    match state.skip_decision(true, 6) {
        SkipDecision::Refused(m) => assert_eq!(m, "他のユーザーの曲はスキップできません。"),
        _ => panic!("another member's track"),
    }
    match state.skip_decision(true, 5) {
        SkipDecision::Skip(m) => assert_eq!(m, "スキップしました"),
        _ => panic!("the member's own track"),
    }
    match state.skip_decision(false, 6) {
        SkipDecision::Skip(m) => assert_eq!(m, "スキップしました"),
        _ => panic!("skipping is not restricted"),
    }
    state.set_current(2, None);
    assert!(matches!(state.skip_decision(true, 6), SkipDecision::Skip(_)));
}

#[test]
fn search_results_offered() {
    match search_options(&vec![]) {
        Err(m) => assert_eq!(m, "検索結果が見つかりませんでした"),
        Ok(_) => panic!("no results"),
    }
    let results: Vec<YtdlOutput> =
        (0..12).map(|i| ytdl(&format!("t{}", i), &format!("https://v/{}", i))).collect();
    let options = search_options(&results).unwrap();
    assert_eq!(options.len(), 10);
    assert_eq!(options[0], ("t0".to_string(), "https://v/0".to_string()));
    assert_eq!(options[9], ("t9".to_string(), "https://v/9".to_string()));
    let long = ytdl(&"z".repeat(120), "https://v/long");
    let options = search_options(&vec![long]).unwrap();
    assert_eq!(options, vec![(format!("{}...", "z".repeat(95)), "https://v/long".to_string())]);
}

#[test]
fn seek_inputs() {
    assert!(matches!(read_seek_input("1:30"), SeekInput::Request(SeekRequest::To(90))));
    assert!(matches!(read_seek_input("+10"), SeekInput::Request(SeekRequest::Forward(10))));
    assert!(matches!(read_seek_input("-5"), SeekInput::Request(SeekRequest::Backward(5))));
    match read_seek_input("abc") {
        SeekInput::Invalid(m) => {
            assert_eq!(m, "時間の形式が不正です。秒数または「h:m:s」などの形式で入力してください。")
        }
        _ => panic!("no time"),
    }
    assert!(matches!(read_seek_input("18446744073709551615:1"), SeekInput::TooLarge));
}

#[test]
fn selected_search_result() {
    let results = vec![ytdl("one", "https://a"), ytdl("two", "https://b"), ytdl("dup", "https://b")];
    let item = selected_item(&results, "https://b");
    assert_eq!(item.title, "two");
    assert_eq!(item.url, "https://b");
    let item = selected_item(&results, "https://zzz");
    assert_eq!(item.title, "Youtube Video");
    assert_eq!(item.url, "https://zzz");
    assert_eq!(search_results_heading("cats"), "`cats`の検索結果");
}

#[test]
fn pause_and_skip_replies() {
    match pause_toggle(Some(PlayMode::Play)) {
        PauseAction::Pause(m) => assert_eq!(m, "音楽を一時停止しました。"),
        _ => panic!(),
    }
    match pause_toggle(Some(PlayMode::Pause)) {
        PauseAction::Resume(m) => assert_eq!(m, "音楽を再開しました。"),
        _ => panic!(),
    }
    match pause_toggle(None) {
        PauseAction::NotPlaying(m) => assert_eq!(m, "音楽を再生していません。"),
        _ => panic!(),
    }
    match pause_toggle(Some(PlayMode::Other)) {
        PauseAction::NotPlaying(m) => assert_eq!(m, "音楽を再生していません。"),
        _ => panic!(),
    }
    assert_eq!(skip_reply(true), "スキップしました");
    assert_eq!(skip_reply(false), "再生していません");
}

fn item(title: &str) -> MusicItem {
    fallback_video_item(title)
}

#[test]
fn queue_is_first_in_first_out() {
    let mut state: MusicState<u32> = MusicState::new(7);
    assert!(state.enqueue(item("a")));
    assert!(state.enqueue(item("b")));
    assert_eq!(state.advance().map(|i| i.url), Some("a".to_string()));
    state.set_current(1, None);
    assert!(!state.enqueue(item("c")));
    assert_eq!(state.advance().map(|i| i.url), Some("b".to_string()));
    assert_eq!(state.advance().map(|i| i.url), Some("c".to_string()));
    assert_eq!(state.current_track, Some(1));
    assert!(state.advance().is_none());
    assert_eq!(state.current_track, None);
    assert_eq!(state.volume, 7);
}

#[test]
fn times_that_fit() {
    assert!(time_fits_u64("18446744073709551615"));
    assert!(!time_fits_u64("18446744073709551615:1"));
    assert!(!time_fits_u64("5124095576030432:0:0"));
    assert!(time_fits_u64("5124095576030431:0:15"));
    assert!(!time_fits_u64("5124095576030431:0:16"));
    assert!(time_fits_u64("nonsense"));
    assert!(seek_input_fits("+10"));
    assert!(!seek_input_fits("-18446744073709551615:0"));
    assert!(seek_input_fits(""));
}

#[test]
fn synthesis_pieces_are_short_and_non_empty() {
    let text = format!("{}。{}、 。{}", "あ".repeat(400), "い".repeat(10), "う".repeat(150));
    let pieces = split_text_for_synthesis(&text);
    assert_eq!(pieces.len(), 3);
    for p in &pieces {
        let n = p.chars().count();
        assert!(n > 0 && n <= 153, "{n}");
    }
    assert_eq!(split_text_for_synthesis("  区切りなし  "), vec!["区切りなし"]);
    assert_eq!(split_text_for_synthesis("   "), Vec::<String>::new());
}

#[test]
fn printed_durations_read_back() {
    for sec in [0u64, 5, 59, 60, 61, 3599, 3600, 3661, 36059, 86399] {
        assert_eq!(parse_time_to_secs(&format_duration(sec)), Some(sec));
    }
}

#[test]
fn text_cut_at_a_full_stop_is_spoken_in_halves() {
    let (a, b) = ("今日は晴れ、暑い", "明日は雨！ 寒い");
    let mut whole = split_text_for_synthesis(a);
    whole.extend(split_text_for_synthesis(b));
    assert_eq!(split_text_for_synthesis(&format!("{}。{}", a, b)), whole);
    assert_eq!(whole, vec!["今日は晴れ", "暑い", "明日は雨", "寒い"]);
}
