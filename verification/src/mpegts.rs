//! Transport-stream demuxing state: how packets are routed by program id,
//! when the scan of a fresh stream is complete, and how ADTS audio frames
//! become timestamped packets of a created track.
//!
//! The demultiplexer itself pushes 188-byte packets through these rules; the
//! rules decide everything.
use vstd::prelude::*;

verus! {

/// Size of one transport-stream packet.
pub const TS_PACKET_SIZE: usize = 188;

/// The scan of a fresh stream gives up after this many bytes.
pub const READ_TRACKS_TIMEOUT_BYTES: usize = 188 * 4096;

/// AAC samples per ADTS block: packet timestamps count blocks over the
/// sample rate.
pub const AAC_SAMPLES_PER_BLOCK: u32 = 1024;

/// The program id that carries the program association table.
pub const PAT_PID: u16 = 0;

/// The program id of stuffing packets.
pub const STUFFING_PID: u16 = 0x1fff;

/// What the demultiplexer asks a filter for.
pub enum FilterRequestInfo {
    /// A packet on this program id, outside any announced stream.
    ByPid(u16),
    /// An announced elementary stream; `is_adts` when its stream type is
    /// ADTS audio.
    ByStream { is_adts: bool },
    /// A program map table.
    Pmt { pid: u16, program_number: u16 },
    /// The network information table.
    Nit,
}

/// Which filter handles the packets.
pub enum FilterKind {
    /// The default program-association-table filter.
    Pat,
    /// The default program-map-table filter.
    Pmt { pid: u16, program_number: u16 },
    /// Dropped: stuffing, unannounced ids, and the network table.
    Null,
    /// An ADTS audio stream: parsed into packets.
    AdtsPes,
    /// Any other stream: only observed, to tell that data has started.
    UnknownPes,
}

/// Shared scan state of one demultiplexed stream.
pub struct ReadAudioDemuxContext {
    /// How many ADTS streams were announced.
    pub stream_count: usize,
    /// Whether any elementary stream has produced data.
    pub has_started_any_stream: bool,
    /// How many tracks have been created.
    pub tracks_len: usize,
}

/// Routes one filter request: the association table and map tables keep
/// their default filters, stuffing and unannounced ids are dropped, ADTS
/// streams are parsed, and other streams are only observed. An ADTS stream
/// counts toward the announced total.
pub fn route_filter(ctx: &mut ReadAudioDemuxContext, req: FilterRequestInfo) -> (r: FilterKind)
    requires
        old(ctx).stream_count < usize::MAX,
    ensures
        r == (match req {
            FilterRequestInfo::ByPid(pid) => if pid == PAT_PID {
                FilterKind::Pat
            } else {
                FilterKind::Null
            },
            FilterRequestInfo::ByStream { is_adts } => if is_adts {
                FilterKind::AdtsPes
            } else {
                FilterKind::UnknownPes
            },
            FilterRequestInfo::Pmt { pid, program_number } => (FilterKind::Pmt {
                pid,
                program_number,
            }),
            FilterRequestInfo::Nit => FilterKind::Null,
        }),
        final(ctx).stream_count == old(ctx).stream_count + (if req matches FilterRequestInfo::ByStream {
            is_adts: true,
        } {
            1int
        } else {
            0int
        }),
        final(ctx).has_started_any_stream == old(ctx).has_started_any_stream,
        final(ctx).tracks_len == old(ctx).tracks_len,
{
    match req {
        FilterRequestInfo::ByPid(pid) => {
            if pid == PAT_PID {
                FilterKind::Pat
            } else {
                // Stuffing and ids that no table announced carry nothing.
                FilterKind::Null
            }
        },
        FilterRequestInfo::ByStream { is_adts } => {
            if is_adts {
                ctx.stream_count = ctx.stream_count + 1;
                FilterKind::AdtsPes
            } else {
                FilterKind::UnknownPes
            }
        },
        FilterRequestInfo::Pmt { pid, program_number } => FilterKind::Pmt { pid, program_number },
        FilterRequestInfo::Nit => FilterKind::Null,
    }
}

/// An elementary stream the reader does not demultiplex: it only marks that
/// data has started flowing.
pub struct UnknownElementaryStreamConsumer;

impl UnknownElementaryStreamConsumer {
    /// Notes that some stream has started.
    pub fn start_stream(&self, ctx: &mut ReadAudioDemuxContext)
        ensures
            final(ctx).has_started_any_stream,
            final(ctx).stream_count == old(ctx).stream_count,
            final(ctx).tracks_len == old(ctx).tracks_len,
    {
        ctx.has_started_any_stream = true;
    }
}

/// What one scan round decides.
pub enum ScanStep {
    /// Every announced ADTS stream has a track and data has started: the
    /// reader is ready.
    Ready,
    /// Keep pulling packets.
    NeedMoreData,
    /// The byte budget ran out before the streams appeared: the scan fails
    /// as an unexpected end of stream.
    Failed,
}

/// Whether the fresh-stream scan is complete: ready once some stream
/// started and the created tracks cover the announced ADTS streams; failed
/// once the byte budget is exhausted first.
pub fn scan_step(ctx: &ReadAudioDemuxContext, total_bytes: usize) -> (r: ScanStep)
    ensures
        r == (if ctx.has_started_any_stream && ctx.tracks_len >= ctx.stream_count {
            ScanStep::Ready
        } else if total_bytes < READ_TRACKS_TIMEOUT_BYTES {
            ScanStep::NeedMoreData
        } else {
            ScanStep::Failed
        }),
{
    if ctx.has_started_any_stream && ctx.tracks_len >= ctx.stream_count {
        ScanStep::Ready
    } else if total_bytes < READ_TRACKS_TIMEOUT_BYTES {
        ScanStep::NeedMoreData
    } else {
        ScanStep::Failed
    }
}

/// The channel arrangement an ADTS configuration announces.
#[derive(Clone, Copy, PartialEq, Eq, Structural)]
pub enum ChannelConfig {
    ObjectTypeSpecific,
    Mono,
    Stereo,
    Three,
    Four,
    Five,
    FiveOne,
    SevenOne,
}

/// How many channels the configuration carries; unknown for
/// object-type-specific configurations.
pub fn channel_count(config: ChannelConfig) -> (r: Option<u32>)
    ensures
        r == (match config {
            ChannelConfig::ObjectTypeSpecific => Option::<u32>::None,
            ChannelConfig::Mono => Some(1u32),
            ChannelConfig::Stereo => Some(2u32),
            ChannelConfig::Three => Some(3u32),
            ChannelConfig::Four => Some(4u32),
            ChannelConfig::Five => Some(5u32),
            ChannelConfig::FiveOne => Some(6u32),
            ChannelConfig::SevenOne => Some(8u32),
        }),
{
    match config {
        ChannelConfig::ObjectTypeSpecific => None,
        ChannelConfig::Mono => Some(1),
        ChannelConfig::Stereo => Some(2),
        ChannelConfig::Three => Some(3),
        ChannelConfig::Four => Some(4),
        ChannelConfig::Five => Some(5),
        ChannelConfig::FiveOne => Some(6),
        ChannelConfig::SevenOne => Some(8),
    }
}

/// Whether the configuration matches one of the named layouts the decoder
/// knows (mono, stereo, five-point-one).
pub fn has_named_layout(config: ChannelConfig) -> (r: bool)
    ensures
        r == (config is Mono || config is Stereo || config is FiveOne),
{
    match config {
        ChannelConfig::Mono | ChannelConfig::Stereo | ChannelConfig::FiveOne => true,
        _ => false,
    }
}

/// The codec parameters an ADTS configuration gives a track.
#[derive(Clone, Copy, PartialEq, Eq, Structural)]
pub struct CodecInfo {
    pub sample_rate: Option<u32>,
    pub channel_config: ChannelConfig,
}

/// The time base of an AAC track: blocks of `AAC_SAMPLES_PER_BLOCK` samples
/// over the sample rate; none without a known rate.
pub fn time_base(sample_rate: Option<u32>) -> (r: Option<(u32, u32)>)
    ensures
        r == (match sample_rate {
            Some(rate) => Some((AAC_SAMPLES_PER_BLOCK, rate)),
            None => Option::<(u32, u32)>::None,
        }),
{
    match sample_rate {
        Some(rate) => Some((AAC_SAMPLES_PER_BLOCK, rate)),
        None => None,
    }
}

/// The per-stream state of the ADTS consumer: its track, the parameters it
/// announced last, and its running timestamp in blocks.
pub struct AdtsElementaryStreamConsumer {
    pub track_id: u32,
    pub codec_params: Option<CodecInfo>,
    pub track_index: Option<usize>,
    pub ts: u64,
}

/// What finishing one packetized-elementary-stream packet did to the tracks.
pub enum TrackUpdate {
    /// No parameters announced yet: nothing can be emitted.
    NoParamsYet,
    /// The parameters changed on an existing track: its entry is updated.
    UpdateTrack { index: usize },
    /// A first configuration arrived: a track is created at this index.
    NewTrack { index: usize },
    /// Nothing about the track changed.
    Unchanged { index: usize },
}

impl AdtsElementaryStreamConsumer {
    /// A fresh consumer for the elementary stream with this id.
    pub fn new(track_id: u32) -> (r: AdtsElementaryStreamConsumer)
        ensures
            r.track_id == track_id,
            r.codec_params is None,
            r.track_index is None,
            r.ts == 0,
    {
        AdtsElementaryStreamConsumer { track_id, codec_params: None, track_index: None, ts: 0 }
    }

    /// Ends one packet: fresh parameters replace the remembered ones, a
    /// first configuration creates the track at the end of the table, and a
    /// changed configuration updates the existing track.
    pub fn end_packet(&mut self, tracks_len: usize, new_params: Option<CodecInfo>) -> (r:
        TrackUpdate)
        ensures
            final(self).track_id == old(self).track_id,
            final(self).ts == old(self).ts,
            final(self).codec_params == (if new_params is Some {
                new_params
            } else {
                old(self).codec_params
            }),
            r == (match (new_params, old(self).codec_params) {
                (None, None) => TrackUpdate::NoParamsYet,
                (Some(_), _) => match old(self).track_index {
                    Some(i) => TrackUpdate::UpdateTrack { index: i },
                    None => TrackUpdate::NewTrack { index: tracks_len },
                },
                (None, Some(_)) => match old(self).track_index {
                    Some(i) => TrackUpdate::Unchanged { index: i },
                    None => TrackUpdate::NewTrack { index: tracks_len },
                },
            }),
            final(self).track_index == (match old(self).track_index {
                Some(i) => Some(i),
                None => if new_params is Some || old(self).codec_params is Some {
                    Some(tracks_len)
                } else {
                    Option::<usize>::None
                },
            }),
    {
        let params_changed = match new_params {
            Some(p) => {
                self.codec_params = Some(p);
                true
            },
            None => false,
        };
        let has_params = match &self.codec_params {
            Some(_) => true,
            None => false,
        };
        if !has_params {
            return TrackUpdate::NoParamsYet;
        }
        match self.track_index {
            Some(i) => {
                if params_changed {
                    TrackUpdate::UpdateTrack { index: i }
                } else {
                    TrackUpdate::Unchanged { index: i }
                }
            },
            None => {
                self.track_index = Some(tracks_len);
                TrackUpdate::NewTrack { index: tracks_len }
            },
        }
    }

    /// Emits one ADTS frame as a packet: its timestamp is the running block
    /// count, its duration the frame's block count, and the clock advances
    /// by that duration.
    pub fn emit_frame(&mut self, block_count: u8) -> (r: (u64, u64))
        requires
            old(self).ts + block_count <= u64::MAX,
        ensures
            r.0 == old(self).ts,
            r.1 == block_count,
            final(self).ts == old(self).ts + block_count,
            final(self).track_id == old(self).track_id,
            final(self).codec_params == old(self).codec_params,
            final(self).track_index == old(self).track_index,
    {
        let ts = self.ts;
        let dur = block_count as u64;
        self.ts = self.ts + dur;
        (ts, dur)
    }
}

/// How an ADTS parse failure is surfaced: as a decode error that does not
/// end the stream.
pub enum AdtsParseErrorKind {
    BadFrameLength,
    BadSyncWord,
}

/// The decode-error text for an ADTS parse failure.
pub fn adts_error_text(kind: AdtsParseErrorKind) -> (r: String)
    ensures
        r@ == (match kind {
            AdtsParseErrorKind::BadFrameLength => "bad frame length"@,
            AdtsParseErrorKind::BadSyncWord => "bad sync word"@,
        }),
{
    match kind {
        AdtsParseErrorKind::BadFrameLength => {
            let r = "bad frame length";
            r.to_owned()
        },
        AdtsParseErrorKind::BadSyncWord => {
            let r = "bad sync word";
            r.to_owned()
        },
    }
}

} // verus!
