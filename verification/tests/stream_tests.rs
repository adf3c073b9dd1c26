use mrvn::mpegts::{
    adts_error_text, channel_count, has_named_layout, route_filter, scan_step, time_base,
    AdtsElementaryStreamConsumer, AdtsParseErrorKind, ChannelConfig, CodecInfo, FilterKind,
    FilterRequestInfo, ReadAudioDemuxContext, ScanStep, TrackUpdate,
    UnknownElementaryStreamConsumer, PAT_PID, READ_TRACKS_TIMEOUT_BYTES, STUFFING_PID,
};
use mrvn::passthrough::OpusPassthroughSource;
use mrvn::pipeline::{extension_of_path, is_mpeg_stream, probe_hint, songbird};
use mrvn::remote::{NextRequest, RemoteFileState};

#[test]
fn resumed_requests_add_up_to_the_content_length() {
    // The server advertised 100 bytes; two responses die early and two
    // range requests pick up exactly where they left off. The payloads sum
    // to the advertised length.
    let mut st = RemoteFileState::new(Some(100));
    st.on_chunk(40);
    match st.on_response_end() {
        NextRequest::Resume {
            range_start,
            range_end,
        } => {
            assert_eq!(range_start, 40);
            assert_eq!(range_end, 100);
        }
        _ => panic!("forty of a hundred bytes call for a resume"),
    }
    st.on_chunk(35);
    match st.on_response_end() {
        NextRequest::Resume {
            range_start,
            range_end,
        } => {
            assert_eq!(range_start, 75);
            assert_eq!(range_end, 100);
        }
        _ => panic!("the second resume asks for the rest"),
    }
    st.on_chunk(25);
    match st.on_response_end() {
        NextRequest::Done => {}
        _ => panic!("40 + 35 + 25 bytes reach the advertised length"),
    }
}

#[test]
fn empty_response_ends_the_download() {
    // A response that delivered nothing must not loop forever.
    let mut st = RemoteFileState::new(Some(100));
    st.on_chunk(10);
    assert!(matches!(st.on_response_end(), NextRequest::Resume { .. }));
    // The resumed request dies without a byte.
    match st.on_response_end() {
        NextRequest::Done => {}
        _ => panic!("an empty response stops the resumption"),
    }
}

#[test]
fn unknown_length_is_never_resumed() {
    let mut st = RemoteFileState::new(None);
    st.on_chunk(10);
    match st.on_response_end() {
        NextRequest::Done => {}
        _ => panic!("without a length there is no range to ask for"),
    }
}

#[test]
fn passthrough_wraps_frames_in_length_prefixes() {
    let mut src = OpusPassthroughSource::new();
    src.push_packet(vec![0xaa, 0xbb, 0xcc]);
    src.push_packet(vec![0x11; 300]);
    let mut wire: Vec<u8> = Vec::new();
    loop {
        let chunk = src.read(7);
        if chunk.is_empty() {
            break;
        }
        wire.extend_from_slice(&chunk);
    }
    // First frame: length 3 little endian, then the bytes.
    assert_eq!(&wire[..5], &[3, 0, 0xaa, 0xbb, 0xcc]);
    // Second frame: length 300 = 44 + 256.
    assert_eq!(&wire[5..7], &[44, 1]);
    assert_eq!(wire.len(), 5 + 2 + 300);
    assert!(wire[7..].iter().all(|b| *b == 0x11));
}

#[test]
fn passthrough_never_splits_a_header() {
    let mut src = OpusPassthroughSource::new();
    src.push_packet(vec![1, 2, 3]);
    src.push_packet(vec![4]);
    // Room for the first frame and only one more byte: the second header
    // does not fit, so the read stops after the first frame.
    let chunk = src.read(6);
    assert_eq!(chunk, vec![3, 0, 1, 2, 3]);
    // The next read picks up with the second frame's header.
    let rest = src.read(16);
    assert_eq!(rest, vec![1, 0, 4]);
}

#[test]
fn transport_stream_routing() {
    let mut ctx = ReadAudioDemuxContext {
        stream_count: 0,
        has_started_any_stream: false,
        tracks_len: 0,
    };
    assert!(matches!(
        route_filter(&mut ctx, FilterRequestInfo::ByPid(PAT_PID)),
        FilterKind::Pat
    ));
    assert!(matches!(
        route_filter(&mut ctx, FilterRequestInfo::ByPid(STUFFING_PID)),
        FilterKind::Null
    ));
    assert!(matches!(
        route_filter(&mut ctx, FilterRequestInfo::ByPid(0x0100)),
        FilterKind::Null
    ));
    assert!(matches!(
        route_filter(&mut ctx, FilterRequestInfo::Nit),
        FilterKind::Null
    ));
    assert!(matches!(
        route_filter(
            &mut ctx,
            FilterRequestInfo::Pmt {
                pid: 0x1000,
                program_number: 1
            }
        ),
        FilterKind::Pmt { .. }
    ));
    assert!(matches!(
        route_filter(&mut ctx, FilterRequestInfo::ByStream { is_adts: false }),
        FilterKind::UnknownPes
    ));
    assert_eq!(ctx.stream_count, 0);
    assert!(matches!(
        route_filter(&mut ctx, FilterRequestInfo::ByStream { is_adts: true }),
        FilterKind::AdtsPes
    ));
    assert_eq!(ctx.stream_count, 1);
}

#[test]
fn scan_finishes_or_gives_up() {
    let mut ctx = ReadAudioDemuxContext {
        stream_count: 1,
        has_started_any_stream: false,
        tracks_len: 0,
    };
    assert!(matches!(scan_step(&ctx, 0), ScanStep::NeedMoreData));
    assert!(matches!(
        scan_step(&ctx, READ_TRACKS_TIMEOUT_BYTES),
        ScanStep::Failed
    ));
    let unknown = UnknownElementaryStreamConsumer;
    unknown.start_stream(&mut ctx);
    assert!(ctx.has_started_any_stream);
    ctx.tracks_len = 1;
    assert!(matches!(scan_step(&ctx, 0), ScanStep::Ready));
}

#[test]
fn adts_consumer_tracks_and_timestamps() {
    let mut consumer = AdtsElementaryStreamConsumer::new(0x44);
    // No configuration yet: nothing can be emitted.
    assert!(matches!(
        consumer.end_packet(0, None),
        TrackUpdate::NoParamsYet
    ));
    // The first configuration creates a track at the end of the table.
    let params = CodecInfo {
        sample_rate: Some(48_000),
        channel_config: ChannelConfig::Stereo,
    };
    match consumer.end_packet(0, Some(params)) {
        TrackUpdate::NewTrack { index } => assert_eq!(index, 0),
        _ => panic!("the first configuration creates the track"),
    }
    // Unchanged parameters leave the track alone; changed ones update it.
    assert!(matches!(
        consumer.end_packet(1, None),
        TrackUpdate::Unchanged { index: 0 }
    ));
    let changed = CodecInfo {
        sample_rate: Some(44_100),
        channel_config: ChannelConfig::Stereo,
    };
    assert!(matches!(
        consumer.end_packet(1, Some(changed)),
        TrackUpdate::UpdateTrack { index: 0 }
    ));
    // Timestamps advance by the block count of each frame.
    assert_eq!(consumer.emit_frame(1), (0, 1));
    assert_eq!(consumer.emit_frame(2), (1, 2));
    assert_eq!(consumer.emit_frame(1), (3, 1));
}

#[test]
fn channel_configurations_count_channels() {
    assert_eq!(channel_count(ChannelConfig::ObjectTypeSpecific), None);
    assert_eq!(channel_count(ChannelConfig::Mono), Some(1));
    assert_eq!(channel_count(ChannelConfig::Stereo), Some(2));
    assert_eq!(channel_count(ChannelConfig::SevenOne), Some(8));
    assert!(has_named_layout(ChannelConfig::FiveOne));
    assert!(!has_named_layout(ChannelConfig::Four));
    // AAC packets are timed in 1024-sample blocks over the sample rate.
    assert_eq!(time_base(Some(48_000)), Some((1024, 48_000)));
    assert_eq!(time_base(None), None);
    assert_eq!(
        adts_error_text(AdtsParseErrorKind::BadSyncWord),
        "bad sync word"
    );
    assert_eq!(
        adts_error_text(AdtsParseErrorKind::BadFrameLength),
        "bad frame length"
    );
}

#[test]
fn playlist_paths_force_transport_stream_probing() {
    let ext = extension_of_path("https://cdn.example/live/stream.m3u8");
    assert_eq!(ext.as_deref(), Some("m3u8"));
    assert!(is_mpeg_stream(ext.as_ref(), None));
    let hint = probe_hint(true, ext, None);
    assert_eq!(hint.extension.as_deref(), Some("ts"));
    assert_eq!(hint.mime_type.as_deref(), Some("video/mp2t"));

    let mime = "audio/mpegurl".to_string();
    assert!(is_mpeg_stream(None, Some(&mime)));

    let plain = extension_of_path("https://cdn.example/media/song.ogg");
    assert_eq!(plain.as_deref(), Some("ogg"));
    assert!(!is_mpeg_stream(plain.as_ref(), None));
    let passthrough_hint = probe_hint(false, plain, Some("audio/ogg".to_string()));
    assert_eq!(passthrough_hint.extension.as_deref(), Some("ogg"));
    assert_eq!(passthrough_hint.mime_type.as_deref(), Some("audio/ogg"));

    assert_eq!(extension_of_path("https://cdn.example/media/noext"), None);
    assert!(songbird().mpegts_enabled);
}
