use mrvn::config::parse_hex_u32;
use mrvn::error::Error;
use mrvn::messages::{
    get_message_text, select_messages, u64_to_string, ActionMessage, Message, MessageConfig,
    ResponseMessage,
};
use mrvn::song::{
    classify_extractor_line, contains_substring, resolve_play_target, song_from_extractor_fields,
    str_eq_chars, ExtractorFields, ExtractorLine, PlayConfig,
};
use mrvn::time_bar::{format_time_bar, progress_update_period_ms};

fn catalog() -> MessageConfig {
    MessageConfig {
        messages: vec![
            (
                "response.queued".to_string(),
                "Queued [{song_title}]({song_url}).".to_string(),
            ),
            (
                "response.queued_multiple".to_string(),
                "Queued {count} songs.".to_string(),
            ),
            (
                "response.stop_more_votes_needed.singular".to_string(),
                "One more vote to stop <#{voice_channel_id}>.".to_string(),
            ),
            (
                "response.stop_more_votes_needed.plural".to_string(),
                "{count} more votes to stop <#{voice_channel_id}>.".to_string(),
            ),
            ("time".to_string(), "{minutes}:{seconds}".to_string()),
            (
                "time_and_duration".to_string(),
                "{time} / {duration}".to_string(),
            ),
            ("duration.unknown".to_string(), "live".to_string()),
        ],
    }
}

fn play_config(blocklist: Vec<&str>) -> PlayConfig {
    PlayConfig {
        search_prefix: "ytsearch".to_string(),
        host_blocklist: blocklist.into_iter().map(|s| s.to_string()).collect(),
        ytdl_name: "yt-dlp".to_string(),
        ytdl_args: Vec::new(),
        buffer_capacity_kb: 256,
    }
}

#[test]
fn placeholders_are_substituted() {
    let subs = vec![
        ("name".to_string(), "world".to_string()),
        ("n".to_string(), "2".to_string()),
    ];
    assert_eq!(get_message_text("Hello {name}!", &subs), "Hello world!");
    assert_eq!(get_message_text("{n}+{n}", &subs), "2+2");
    // An unknown placeholder renders as nothing; a brace without a closing
    // word stands as it is.
    assert_eq!(get_message_text("a{missing}b", &subs), "ab");
    assert_eq!(get_message_text("a{ b}c", &subs), "a{ b}c");
    assert_eq!(get_message_text("{}", &subs), "{}");
    assert_eq!(get_message_text("tail{", &subs), "tail{");
}

#[test]
fn numbers_render_in_decimal() {
    assert_eq!(u64_to_string(0), "0");
    assert_eq!(u64_to_string(7), "7");
    assert_eq!(u64_to_string(240), "240");
    assert_eq!(u64_to_string(123_456_789), "123456789");
    assert_eq!(u64_to_string(u64::MAX), "18446744073709551615");
}

#[test]
fn response_messages_render_from_the_catalog() {
    let config = catalog();
    let queued = ResponseMessage::Queued {
        song_title: "a".to_string(),
        song_url: "https://example/a".to_string(),
    };
    assert_eq!(
        queued.to_string(&config),
        "Queued [a](https://example/a)."
    );
    let multiple = ResponseMessage::QueuedMultiple { count: 3 };
    assert_eq!(multiple.to_string(&config), "Queued 3 songs.");
    // A missing key renders as the key itself, so the gap is visible.
    let unsupported = ResponseMessage::UnsupportedSiteError;
    assert_eq!(
        unsupported.to_string(&config),
        "response.unsupported_site_error"
    );
    assert!(unsupported.is_error());
    assert!(!queued.is_error());
}

#[test]
fn vote_counts_pick_singular_or_plural() {
    let config = catalog();
    let one = ResponseMessage::StopMoreVotesNeeded {
        voice_channel_id: 9,
        count: 1,
    };
    assert_eq!(one.to_string(&config), "One more vote to stop <#9>.");
    let two = ResponseMessage::StopMoreVotesNeeded {
        voice_channel_id: 9,
        count: 2,
    };
    assert_eq!(two.to_string(&config), "2 more votes to stop <#9>.");
}

#[test]
fn only_the_newest_action_message_is_sent() {
    let response = Message::Response {
        message: ResponseMessage::UnsupportedSiteError,
    };
    let older = Message::Action {
        message: ActionMessage::Finished,
        voice_channel: 7,
    };
    let newer = Message::Action {
        message: ActionMessage::UnknownError,
        voice_channel: 8,
    };
    let (sent, action_channel) = select_messages(vec![older, response, newer]);
    assert_eq!(sent.len(), 2);
    assert!(matches!(sent[0], Message::Response { .. }));
    match &sent[1] {
        Message::Action { voice_channel, .. } => assert_eq!(*voice_channel, 8),
        _ => panic!("the newest action message is kept"),
    }
    assert_eq!(action_channel, Some(8));

    let (none_sent, no_action) = select_messages(Vec::new());
    assert!(none_sent.is_empty());
    assert_eq!(no_action, None);
}

#[test]
fn blocklisted_hosts_are_refused() {
    // The host of the URL contains a blocked entry: the request is refused
    // and nothing reaches the extractor.
    let config = play_config(vec!["bad.example"]);
    match resolve_play_target("https://bad.example/x", &config) {
        Err(Error::UnsupportedUrl) => {}
        _ => panic!("a blocklisted host must be refused"),
    }
    // An unrelated host passes through unchanged.
    match resolve_play_target("https://good.example/x", &config) {
        Ok(q) => assert_eq!(q, "https://good.example/x"),
        _ => panic!("an unlisted host plays"),
    }
}

#[test]
fn plain_terms_become_search_queries() {
    let config = play_config(vec![]);
    match resolve_play_target("crystal dolphin", &config) {
        Ok(q) => assert_eq!(q, "ytsearch:crystal dolphin"),
        _ => panic!("a non-URL becomes a search"),
    }
}

#[test]
fn substring_search_matches_anywhere() {
    assert!(contains_substring("music.bad.example", "bad.example"));
    assert!(contains_substring("abc", ""));
    assert!(!contains_substring("abc", "abcd"));
    assert!(contains_substring("abc", "abc"));
    assert!(!contains_substring("", "a"));
    assert!(str_eq_chars("abc", "abc"));
    assert!(!str_eq_chars("abc", "abd"));
}

#[test]
fn extractor_error_lines_are_surfaced() {
    match classify_extractor_line("ERROR: video unavailable") {
        ExtractorLine::ExtractorError(text) => assert_eq!(text, "video unavailable"),
        _ => panic!("the marker line is an extractor error"),
    }
    match classify_extractor_line("{\"title\":\"a\"}") {
        ExtractorLine::Payload(text) => assert_eq!(text, "{\"title\":\"a\"}"),
        _ => panic!("anything else is payload"),
    }
}

fn fields() -> ExtractorFields {
    ExtractorFields {
        title: "plain".to_string(),
        fulltitle: Some("full".to_string()),
        description: Some("described".to_string()),
        extractor: "youtube".to_string(),
        webpage_url: "https://example/page".to_string(),
        url: "https://example/media".to_string(),
        thumbnail: None,
        http_headers: vec![("user-agent".to_string(), "mrvn".to_string())],
        duration_seconds: Some(217),
    }
}

#[test]
fn titles_prefer_the_full_title() {
    let song = song_from_extractor_fields(fields(), 5);
    assert_eq!(song.metadata.title, "full");
    assert_eq!(song.metadata.url, "https://example/page");
    assert_eq!(song.download_url, "https://example/media");
    assert_eq!(song.metadata.duration_seconds, Some(217));
    assert_eq!(song.metadata.user_id, 5);

    let mut untitled = fields();
    untitled.fulltitle = None;
    assert_eq!(song_from_extractor_fields(untitled, 5).metadata.title, "plain");
}

#[test]
fn twitch_streams_take_the_description_as_title() {
    let mut stream = fields();
    stream.extractor = "twitch:stream".to_string();
    assert_eq!(
        song_from_extractor_fields(stream, 5).metadata.title,
        "described"
    );
}

#[test]
fn zero_duration_means_unknown() {
    let mut live = fields();
    live.duration_seconds = Some(0);
    assert_eq!(
        song_from_extractor_fields(live, 5).metadata.duration_seconds,
        None
    );
}

#[test]
fn hex_colors_parse() {
    assert_eq!(parse_hex_u32("ff0000"), Some(0xff0000));
    assert_eq!(parse_hex_u32("00FF7f"), Some(0x00ff7f));
    assert_eq!(parse_hex_u32("0"), Some(0));
    assert_eq!(parse_hex_u32("ffffffff"), Some(u32::MAX));
    assert_eq!(parse_hex_u32("100000000"), None);
    assert_eq!(parse_hex_u32(""), None);
    assert_eq!(parse_hex_u32("12g4"), None);
}

#[test]
fn time_bar_fills_with_progress() {
    let config = catalog();
    // 65 seconds of 130: "1:05 / 2:10" is 11 columns, the bar fills half of
    // the remaining 40.
    let line = format_time_bar(&config, 65, Some(130));
    assert_eq!(
        line,
        format!("1:05 / 2:10 [{}{}]", "=".repeat(20), "-".repeat(20))
    );
    // Without a duration there is no bar.
    assert_eq!(format_time_bar(&config, 65, None), "1:05 / live");
}

#[test]
fn ticker_period_is_clamped() {
    // 130 seconds over a 40-column bar is 3250 ms per column.
    assert_eq!(progress_update_period_ms(Some(130), 11, 1000, 10_000), 3250);
    assert_eq!(progress_update_period_ms(Some(130), 11, 4000, 10_000), 4000);
    assert_eq!(progress_update_period_ms(Some(130), 11, 1000, 2000), 2000);
    assert_eq!(progress_update_period_ms(None, 11, 1000, 2000), 2000);
}
