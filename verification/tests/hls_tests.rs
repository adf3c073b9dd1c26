use mrvn::playlist::{parse_dec_u64, parse_media_playlist};
use mrvn::hls::{
    is_discontinuity, refresh_delay_ms, segment_expired, select_segments, total_duration_ms,
    HlsSegment, MediaPlaylist,
};

fn segment(uri: &str, duration_ms: u64) -> HlsSegment {
    HlsSegment {
        uri: uri.to_string(),
        duration_ms,
        key_method_none: true,
    }
}

fn ten_segment_playlist(media_sequence: u64, end_list: bool) -> MediaPlaylist {
    // Ten six-second segments: sixty seconds in all, target duration six.
    let mut segments = Vec::new();
    for k in 1..=10u64 {
        segments.push(segment(&format!("seg{}.ts", k), 6000));
    }
    MediaPlaylist {
        target_duration_ms: 6000,
        media_sequence,
        end_list,
        segments,
    }
}

#[test]
fn first_live_fetch_keeps_only_the_tail() {
    // Sum of durations 60 s, target 6 s: only segments whose end reaches
    // past 60 - 18 = 42 s survive, which are the eighth, ninth and tenth.
    let playlist = ten_segment_playlist(1, false);
    let selected = select_segments(playlist, None, 1_000_000);
    assert_eq!(selected.len(), 3);
    assert_eq!(selected[0].segment.uri, "seg8.ts");
    assert_eq!(selected[0].sequence, 8);
    assert_eq!(selected[0].start_ms, 42_000);
    // Expiry: request instant + start offset + total playlist duration.
    assert_eq!(selected[0].expiry_ms, 1_000_000 + 42_000 + 60_000);
    assert_eq!(selected[1].sequence, 9);
    assert_eq!(selected[2].sequence, 10);
}

#[test]
fn finished_playlist_is_delivered_in_full() {
    let playlist = ten_segment_playlist(1, true);
    let selected = select_segments(playlist, None, 0);
    assert_eq!(selected.len(), 10);
    assert_eq!(selected[0].sequence, 1);
    assert_eq!(selected[9].sequence, 10);
}

#[test]
fn refresh_emits_only_unseen_segments() {
    // The same playlist again: every sequence was seen, nothing is emitted,
    // and the next fetch waits half the target duration.
    let unchanged = select_segments(ten_segment_playlist(1, false), Some(10), 2_000_000);
    assert!(unchanged.is_empty());
    assert_eq!(refresh_delay_ms(false, 6000), 3000);

    // A playlist starting at sequence 11 brings three new segments; the
    // jump from 10 to 11 is contiguous, so no discontinuity is reported,
    // and the next fetch waits the full target duration.
    let mut segments = Vec::new();
    for k in 11..=13u64 {
        segments.push(segment(&format!("seg{}.ts", k), 6000));
    }
    let refreshed = MediaPlaylist {
        target_duration_ms: 6000,
        media_sequence: 11,
        end_list: false,
        segments,
    };
    let selected = select_segments(refreshed, Some(10), 3_000_000);
    assert_eq!(selected.len(), 3);
    assert_eq!(selected[0].sequence, 11);
    assert_eq!(selected[2].sequence, 13);
    assert!(!is_discontinuity(Some(10), selected[0].sequence));
    assert_eq!(refresh_delay_ms(true, 6000), 6000);
}

#[test]
fn sequence_jump_is_a_discontinuity() {
    // A refresh that starts at sequence 13 after seeing 10 skipped two
    // segments: a discontinuity is reported, and 13 and 14 are emitted.
    let mut segments = Vec::new();
    for k in 13..=14u64 {
        segments.push(segment(&format!("seg{}.ts", k), 6000));
    }
    let refreshed = MediaPlaylist {
        target_duration_ms: 6000,
        media_sequence: 13,
        end_list: false,
        segments,
    };
    let selected = select_segments(refreshed, Some(10), 0);
    assert_eq!(selected.len(), 2);
    assert_eq!(selected[0].sequence, 13);
    assert_eq!(selected[1].sequence, 14);
    assert!(is_discontinuity(Some(10), selected[0].sequence));
}

#[test]
fn expiry_is_judged_against_the_clock() {
    assert!(!segment_expired(100, 100));
    assert!(segment_expired(101, 100));
}

#[test]
fn durations_sum_over_all_segments() {
    let playlist = ten_segment_playlist(1, false);
    assert_eq!(total_duration_ms(&playlist.segments), 60_000);
    let none: Vec<HlsSegment> = Vec::new();
    assert_eq!(total_duration_ms(&none), 0);
}

#[test]
fn playlist_text_parses_into_segments() {
    let text = "#EXTM3U\r\n\
#EXT-X-TARGETDURATION:6\r\n\
#EXT-X-MEDIA-SEQUENCE:42\r\n\
#EXTINF:6.006,\r\n\
seg42.ts\r\n\
#EXTINF:5,title text\r\n\
seg43.ts\r\n\
#EXT-X-ENDLIST\r\n";
    let playlist = parse_media_playlist(text).unwrap();
    assert_eq!(playlist.target_duration_ms, 6000);
    assert_eq!(playlist.media_sequence, 42);
    assert!(playlist.end_list);
    assert_eq!(playlist.segments.len(), 2);
    assert_eq!(playlist.segments[0].uri, "seg42.ts");
    assert_eq!(playlist.segments[0].duration_ms, 6006);
    assert!(playlist.segments[0].key_method_none);
    assert_eq!(playlist.segments[1].uri, "seg43.ts");
    assert_eq!(playlist.segments[1].duration_ms, 5000);
}

#[test]
fn encrypted_segments_are_marked() {
    let text = "#EXT-X-TARGETDURATION:6\n\
#EXT-X-KEY:METHOD=AES-128,URI=\"key\"\n\
#EXTINF:6,\n\
locked.ts\n\
#EXT-X-KEY:METHOD=NONE\n\
#EXTINF:6,\n\
open.ts\n";
    let playlist = parse_media_playlist(text).unwrap();
    assert_eq!(playlist.segments.len(), 2);
    assert!(!playlist.segments[0].key_method_none);
    assert!(playlist.segments[1].key_method_none);
}

#[test]
fn playlists_without_a_target_duration_fail() {
    assert!(parse_media_playlist("#EXTM3U\n#EXTINF:6,\nx.ts\n").is_err());
    assert!(parse_media_playlist("#EXT-X-TARGETDURATION:abc\n").is_err());
}

#[test]
fn decimal_numerals_parse_with_bounds() {
    assert_eq!(parse_dec_u64("0"), Some(0));
    assert_eq!(parse_dec_u64("6"), Some(6));
    assert_eq!(parse_dec_u64("18446744073709551615"), Some(u64::MAX));
    assert_eq!(parse_dec_u64("18446744073709551616"), None);
    assert_eq!(parse_dec_u64(""), None);
    assert_eq!(parse_dec_u64("1x"), None);
}
