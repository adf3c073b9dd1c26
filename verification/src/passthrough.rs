//! Passthrough framing for tracks whose codec already matches the wire
//! format: each packet is emitted as a two-byte little-endian length
//! followed by the frame's bytes. A reader that has fewer than two bytes of
//! room at a frame boundary gets what was written so far — a length prefix
//! is never split.
use vstd::prelude::*;

verus! {

/// The little-endian two-byte length prefix.
pub open spec fn len_prefix(n: int) -> Seq<u8> {
    seq![(n % 256) as u8, (n / 256) as u8]
}

/// The wire encoding of a run of frames.
pub open spec fn envelope(frames: Seq<Seq<u8>>) -> Seq<u8>
    decreases frames.len(),
{
    if frames.len() == 0 {
        Seq::empty()
    } else {
        len_prefix(frames[0].len() as int) + frames[0] + envelope(frames.skip(1))
    }
}

/// Appending one frame extends the encoding at the end.
proof fn lemma_envelope_push(frames: Seq<Seq<u8>>, f: Seq<u8>)
    ensures
        envelope(frames.push(f)) == envelope(frames) + len_prefix(f.len() as int) + f,
    decreases frames.len(),
{
    if frames.len() == 0 {
        assert(frames.push(f)[0] == f);
        assert(frames.push(f).skip(1) =~= Seq::<Seq<u8>>::empty());
        assert(envelope(frames.push(f).skip(1)) == Seq::<u8>::empty());
        assert(envelope(frames.push(f)) =~= envelope(frames) + len_prefix(f.len() as int) + f);
    } else {
        assert(frames.push(f).skip(1) =~= frames.skip(1).push(f));
        lemma_envelope_push(frames.skip(1), f);
        assert(frames.push(f)[0] == frames[0]);
        assert(envelope(frames.push(f)) =~= envelope(frames) + len_prefix(f.len() as int) + f);
    }
}

/// The frame views of a queue.
pub open spec fn frame_views(queue: Seq<Vec<u8>>) -> Seq<Seq<u8>> {
    queue.map_values(|v: Vec<u8>| v@)
}

/// A source that emits already-encoded frames under the wire envelope.
pub struct OpusPassthroughSource {
    queue: Vec<Vec<u8>>,
    current: Option<(Vec<u8>, usize)>,
}

impl OpusPassthroughSource {
    /// The bytes still to be emitted: the rest of the frame being copied,
    /// then the full encoding of the queued frames.
    pub closed spec fn remaining(self) -> Seq<u8> {
        (match self.current {
            Some((f, off)) => f@.skip(off as int),
            None => Seq::empty(),
        }) + envelope(frame_views(self.queue@))
    }

    /// Whether the source stands at a frame boundary, where the next bytes
    /// would be a length prefix.
    pub closed spec fn at_header(self) -> bool {
        self.current is None
    }

    /// Offsets stay within the current frame; every frame length fits the
    /// two-byte prefix.
    pub closed spec fn wf(self) -> bool {
        &&& match self.current {
            Some((f, off)) => off < f@.len(),
            None => true,
        }
        &&& forall|i: int| 0 <= i < self.queue@.len() ==> self.queue@[i]@.len() <= 0xffff
    }

    /// A fresh source with nothing to emit.
    pub fn new() -> (r: OpusPassthroughSource)
        ensures
            r.wf(),
            r.remaining() == Seq::<u8>::empty(),
            r.at_header(),
    {
        let r = OpusPassthroughSource { queue: Vec::new(), current: None };
        proof {
            assert(frame_views(r.queue@) =~= Seq::<Seq<u8>>::empty());
            assert(r.remaining() =~= Seq::<u8>::empty());
        }
        r
    }

    /// Queues one frame: the wire stream grows by its length prefix and its
    /// bytes.
    pub fn push_packet(&mut self, frame: Vec<u8>)
        requires
            old(self).wf(),
            frame@.len() <= 0xffff,
        ensures
            final(self).wf(),
            final(self).remaining() == old(self).remaining() + len_prefix(frame@.len() as int)
                + frame@,
            final(self).at_header() == old(self).at_header(),
    {
        let ghost fv = frame@;
        self.queue.push(frame);
        proof {
            assert(frame_views(self.queue@) =~= frame_views(old(self).queue@).push(fv));
            lemma_envelope_push(frame_views(old(self).queue@), fv);
            assert(final(self).remaining() =~= old(self).remaining() + len_prefix(
                fv.len() as int,
            ) + fv);
        }
    }

    /// Emits up to `max` bytes of the wire stream. The result is the next
    /// prefix of the remaining stream; it falls short of `max` only when the
    /// stream ran out or fewer than two bytes of room were left at a frame
    /// boundary.
    #[verifier::rlimit(50)]
    pub fn read(&mut self, max: usize) -> (out: Vec<u8>)
        requires
            old(self).wf(),
        ensures
            final(self).wf(),
            out@.len() <= max,
            old(self).remaining() == out@ + final(self).remaining(),
            out@.len() < max ==> final(self).remaining().len() == 0 || (final(self).at_header()
                && max - out@.len() < 2),
    {
        let mut out: Vec<u8> = Vec::new();
        loop
            invariant
                self.wf(),
                out@.len() <= max,
                old(self).remaining() == out@ + self.remaining(),
            decreases max - out@.len(),
        {
            if out.len() >= max {
                return out;
            }
            let step_current = match &self.current {
                Some(_) => true,
                None => false,
            };
            if !step_current {
                // At a frame boundary: write a whole length prefix or stop.
                if self.queue.len() == 0 {
                    proof {
                        assert(frame_views(self.queue@).len() == 0);
                        assert(self.remaining() =~= Seq::<u8>::empty());
                    }
                    return out;
                }
                if max - out.len() < 2 {
                    return out;
                }
                let ghost before = *self;
                let ghost out_before = out@;
                let frame = self.queue.remove(0);
                let n = frame.len();
                let ghost fv = frame@;
                out.push((n % 256) as u8);
                out.push((n / 256) as u8);
                if n > 0 {
                    self.current = Some((frame, 0));
                }
                proof {
                    assert(frame_views(before.queue@)[0] == fv);
                    assert(frame_views(before.queue@).skip(1) =~= frame_views(self.queue@));
                    assert(before.remaining() =~= len_prefix(fv.len() as int) + fv + envelope(
                        frame_views(self.queue@),
                    ));
                    assert(fv.skip(0) =~= fv);
                    assert(out@ =~= out_before + len_prefix(fv.len() as int));
                    if fv.len() == 0 {
                        assert(fv =~= Seq::<u8>::empty());
                    }
                    assert(old(self).remaining() =~= out@ + self.remaining());
                }
            } else {
                // Copy one byte of the current frame; an exhausted frame
                // hands over to the next header.
                let ghost before = *self;
                let ghost out_before = out@;
                let (b, finished) = match &self.current {
                    Some((f, off)) => (f[*off], f.len() - 1 == *off),
                    None => (0u8, false),
                };
                out.push(b);
                if finished {
                    self.current = None;
                } else {
                    match &mut self.current {
                        Some((f, off)) => {
                            *off = *off + 1;
                        },
                        None => {},
                    }
                }
                proof {
                    match before.current {
                        Some((f, off)) => {
                            assert(f@.skip(off as int) =~= seq![f@[off as int]] + f@.skip(
                                off as int + 1,
                            ));
                            if off + 1 == f@.len() {
                                assert(f@.skip(off as int + 1) =~= Seq::<u8>::empty());
                            }
                            assert(old(self).remaining() =~= out@ + self.remaining());
                        },
                        None => {},
                    }
                }
            }
        }
    }
}

} // verus!
