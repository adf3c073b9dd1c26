//! Live segmented playlists: which segments of a fetched playlist are
//! emitted, their sequence numbers and expiry deadlines, and the refresh
//! cadence.
//!
//! All durations and instants are whole milliseconds on the caller's clock.
use vstd::prelude::*;

verus! {

/// One segment of a media playlist.
pub struct HlsSegment {
    /// Where the segment is fetched from, possibly relative to the playlist.
    pub uri: String,
    /// Announced duration.
    pub duration_ms: u64,
    /// True when the segment is not encrypted: it has no key, or a key whose
    /// method is none. Encrypted segments cannot be played.
    pub key_method_none: bool,
}

/// A parsed media playlist.
pub struct MediaPlaylist {
    pub target_duration_ms: u64,
    pub media_sequence: u64,
    pub end_list: bool,
    pub segments: Vec<HlsSegment>,
}

/// A segment selected for emission.
pub struct SelectedSegment {
    pub segment: HlsSegment,
    /// Monotonically increasing sequence number.
    pub sequence: u64,
    /// Offset of the segment's start from the playlist's start.
    pub start_ms: u64,
    /// Reading the segment after this instant is pointless: the stream has
    /// moved on.
    pub expiry_ms: u64,
}

/// Sum of the segment durations.
pub open spec fn total_duration_spec(segs: Seq<HlsSegment>) -> int
    decreases segs.len(),
{
    if segs.len() == 0 {
        0
    } else {
        segs[0].duration_ms + total_duration_spec(segs.skip(1))
    }
}

/// Whether the segment at offset `start` with the given duration is kept.
/// On the first playlist of a live stream only segments reaching strictly
/// into the last three target durations survive; a finished playlist is
/// delivered in full. On refreshes only segments past the last seen sequence
/// survive.
pub open spec fn keeps_segment(
    sequence: int,
    start: int,
    duration: int,
    total: int,
    target: int,
    end_list: bool,
    last_seen: Option<u64>,
) -> bool {
    match last_seen {
        Some(ls) => sequence > ls,
        None => end_list || start + duration > total - 3 * target,
    }
}

/// The selection: each kept segment with its sequence number, start offset,
/// and expiry deadline `request_ms + start + total`.
pub open spec fn select_spec(
    segs: Seq<HlsSegment>,
    sequence: int,
    start: int,
    total: int,
    target: int,
    end_list: bool,
    last_seen: Option<u64>,
    request_ms: int,
) -> Seq<SelectedSegment>
    decreases segs.len(),
{
    if segs.len() == 0 {
        Seq::empty()
    } else {
        let rest = select_spec(
            segs.skip(1),
            sequence + 1,
            start + segs[0].duration_ms,
            total,
            target,
            end_list,
            last_seen,
            request_ms,
        );
        if keeps_segment(sequence, start, segs[0].duration_ms as int, total, target, end_list, last_seen) {
            seq![
                (SelectedSegment {
                    segment: segs[0],
                    sequence: sequence as u64,
                    start_ms: start as u64,
                    expiry_ms: (request_ms + start + total) as u64,
                }),
            ] + rest
        } else {
            rest
        }
    }
}

impl MediaPlaylist {
    /// Bounds under which the selection arithmetic stays within `u64`.
    pub open spec fn fits(self, request_instant_ms: u64) -> bool {
        &&& self.media_sequence + self.segments@.len() <= u64::MAX
        &&& total_duration_spec(self.segments@) + 3 * self.target_duration_ms <= u64::MAX
        &&& request_instant_ms + 2 * total_duration_spec(self.segments@) <= u64::MAX
    }
}

/// Sum of the durations of all segments.
pub fn total_duration_ms(segments: &Vec<HlsSegment>) -> (r: u64)
    requires
        total_duration_spec(segments@) <= u64::MAX,
    ensures
        r == total_duration_spec(segments@),
{
    let mut sum: u64 = 0;
    let mut i: usize = 0;
    proof {
        lemma_total_duration_prefix(segments@, 0);
    }
    while i < segments.len()
        invariant
            i <= segments@.len(),
            total_duration_spec(segments@) <= u64::MAX,
            sum == total_duration_spec(segments@.take(i as int)),
            sum + total_duration_spec(segments@.skip(i as int)) == total_duration_spec(segments@),
        decreases segments@.len() - i,
    {
        proof {
            lemma_total_duration_step(segments@, i as int);
            lemma_total_duration_nonneg(segments@.skip(i as int + 1));
        }
        sum = sum + segments[i].duration_ms;
        i += 1;
    }
    proof {
        assert(segments@.take(segments@.len() as int) =~= segments@);
    }
    sum
}

/// The running sum over a prefix plus the sum of the rest is the whole sum.
proof fn lemma_total_duration_step(segs: Seq<HlsSegment>, i: int)
    requires
        0 <= i < segs.len(),
    ensures
        total_duration_spec(segs.take(i + 1)) == total_duration_spec(segs.take(i))
            + segs[i].duration_ms,
        total_duration_spec(segs.skip(i)) == segs[i].duration_ms + total_duration_spec(
            segs.skip(i + 1),
        ),
    decreases i,
{
    assert(segs.skip(i).skip(1) =~= segs.skip(i + 1));
    assert(segs.skip(i)[0] == segs[i]);
    if i == 0 {
        assert(segs.take(0) =~= Seq::empty());
        assert(segs.take(1) =~= Seq::empty().push(segs[0]));
        assert(segs.take(1).skip(1) =~= Seq::empty());
    } else {
        lemma_total_duration_step(segs.skip(1), i - 1);
        assert(segs.take(i + 1).skip(1) =~= segs.skip(1).take(i));
        assert(segs.take(i).skip(1) =~= segs.skip(1).take(i - 1));
        assert(segs.take(i + 1)[0] == segs[0]);
        assert(segs.take(i)[0] == segs[0]);
        assert(segs.skip(1)[i - 1] == segs[i]);
    }
}

/// A duration sum is never negative.
proof fn lemma_total_duration_nonneg(segs: Seq<HlsSegment>)
    ensures
        total_duration_spec(segs) >= 0,
    decreases segs.len(),
{
    if segs.len() > 0 {
        lemma_total_duration_nonneg(segs.skip(1));
    }
}

/// Ties the whole sum to the split at `i`.
proof fn lemma_total_duration_prefix(segs: Seq<HlsSegment>, i: int)
    requires
        0 <= i <= segs.len(),
    ensures
        total_duration_spec(segs.take(i)) + total_duration_spec(segs.skip(i))
            == total_duration_spec(segs),
    decreases i,
{
    if i == 0 {
        assert(segs.take(0) =~= Seq::empty());
        assert(segs.skip(0) =~= segs);
    } else {
        lemma_total_duration_prefix(segs, i - 1);
        lemma_total_duration_step(segs, i - 1);
    }
}

/// Selects the segments of a fetched playlist that are emitted, with their
/// sequence numbers and expiry deadlines. `last_seen` is the sequence number
/// of the newest segment emitted from an earlier fetch, if any.
pub fn select_segments(
    playlist: MediaPlaylist,
    last_seen: Option<u64>,
    request_instant_ms: u64,
) -> (r: Vec<SelectedSegment>)
    requires
        playlist.fits(request_instant_ms),
    ensures
        r@ == select_spec(
            playlist.segments@,
            playlist.media_sequence as int,
            0,
            total_duration_spec(playlist.segments@),
            playlist.target_duration_ms as int,
            playlist.end_list,
            last_seen,
            request_instant_ms as int,
        ),
{
    let ghost all = playlist.segments@;
    let ghost total_spec = total_duration_spec(all);
    let ghost target = playlist.target_duration_ms as int;
    let total = total_duration_ms(&playlist.segments);
    let mut out: Vec<SelectedSegment> = Vec::new();
    let mut start: u64 = 0;
    let mut sequence: u64 = playlist.media_sequence;
    let mut rest = playlist.segments;
    let ghost mut i: int = 0;
    proof {
        lemma_total_duration_prefix(all, 0);
        assert(all.skip(0) =~= all);
    }
    while rest.len() > 0
        invariant
            all == playlist.segments@,
            total_spec == total_duration_spec(all),
            target == playlist.target_duration_ms as int,
            0 <= i <= all.len(),
            rest@ == all.skip(i),
            sequence == playlist.media_sequence + i,
            start == total_duration_spec(all.take(i)),
            total == total_spec,
            playlist.media_sequence + all.len() <= u64::MAX,
            total_spec + 3 * playlist.target_duration_ms <= u64::MAX,
            request_instant_ms + 2 * total_spec <= u64::MAX,
            out@ + select_spec(
                all.skip(i),
                playlist.media_sequence + i,
                total_duration_spec(all.take(i)),
                total_spec,
                target,
                playlist.end_list,
                last_seen,
                request_instant_ms as int,
            ) == select_spec(
                all,
                playlist.media_sequence as int,
                0,
                total_spec,
                target,
                playlist.end_list,
                last_seen,
                request_instant_ms as int,
            ),
        decreases rest@.len(),
    {
        proof {
            lemma_total_duration_prefix(all, i);
            lemma_total_duration_step(all, i);
            lemma_total_duration_nonneg(all.skip(i + 1));
            lemma_total_duration_nonneg(all.take(i));
        }
        let seg = rest.remove(0);
        let ghost head = all[i];
        proof {
            assert(all.skip(i)[0] == all[i]);
            assert(seg == head);
            lemma_total_duration_prefix(all, i + 1);
            lemma_total_duration_nonneg(all.skip(i + 1));
            assert(total_duration_spec(all.take(i + 1)) + total_duration_spec(all.skip(i + 1))
                == total_spec);
            assert(total_duration_spec(all.take(i + 1)) <= total_spec);
            assert(start + seg.duration_ms <= total_spec);
        }
        let keep = match last_seen {
            Some(ls) => sequence > ls,
            None => playlist.end_list || start + seg.duration_ms + 3 * playlist.target_duration_ms
                > total,
        };
        proof {
            assert(keep == keeps_segment(
                sequence as int,
                start as int,
                head.duration_ms as int,
                total_spec,
                target,
                playlist.end_list,
                last_seen,
            ));
        }
        let ghost out_before = out@;
        let duration_ms = seg.duration_ms;
        if keep {
            out.push(
                SelectedSegment {
                    segment: seg,
                    sequence,
                    start_ms: start,
                    expiry_ms: request_instant_ms + start + total,
                },
            );
        }
        proof {
            assert(all.skip(i).skip(1) =~= all.skip(i + 1));
            let tail = select_spec(
                all.skip(i + 1),
                playlist.media_sequence + i + 1,
                total_duration_spec(all.take(i)) + head.duration_ms,
                total_spec,
                target,
                playlist.end_list,
                last_seen,
                request_instant_ms as int,
            );
            if keep {
                assert(out@ + tail =~= (out_before + seq![
                    (SelectedSegment {
                        segment: head,
                        sequence: (playlist.media_sequence + i) as u64,
                        start_ms: total_duration_spec(all.take(i)) as u64,
                        expiry_ms: (request_instant_ms + total_duration_spec(all.take(i))
                            + total_spec) as u64,
                    }),
                ]) + tail);
            }
            assert(total_duration_spec(all.take(i + 1)) == total_duration_spec(all.take(i))
                + head.duration_ms);
            i = i + 1;
        }
        start = start + duration_ms;
        sequence = sequence + 1;
    }
    proof {
        assert(all.skip(all.len() as int) =~= Seq::<HlsSegment>::empty());
        assert(out@ + Seq::<SelectedSegment>::empty() =~= out@);
    }
    out
}

/// Delay until the next playlist fetch, measured from the instant the
/// current playlist was requested: the full target duration when the
/// playlist changed, half of it when it did not.
pub fn refresh_delay_ms(changed: bool, target_duration_ms: u64) -> (r: u64)
    ensures
        r == if changed {
            target_duration_ms as int
        } else {
            target_duration_ms as int / 2
        },
{
    if changed {
        target_duration_ms
    } else {
        target_duration_ms / 2
    }
}

/// Whether a refresh jumped the sequence numbers: the first newly emitted
/// segment does not follow the last seen one directly. Such a gap is logged
/// as a discontinuity.
pub fn is_discontinuity(last_seen: Option<u64>, first_new_sequence: u64) -> (r: bool)
    ensures
        r == match last_seen {
            Some(ls) => ls + 1 < first_new_sequence,
            None => false,
        },
{
    match last_seen {
        Some(ls) => ls < u64::MAX && ls + 1 < first_new_sequence,
        None => false,
    }
}

/// Whether a selected segment has expired by `now_ms` and is dropped rather
/// than fetched.
pub fn segment_expired(now_ms: u64, expiry_ms: u64) -> (r: bool)
    ensures
        r == (now_ms > expiry_ms),
{
    now_ms > expiry_ms
}

} // verus!
