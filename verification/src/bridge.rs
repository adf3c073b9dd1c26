//! Asynchronous bridge over the byte ring: a read side and a write side with
//! wake-on-data / wake-on-space bookkeeping and end-of-stream signalling.
//!
//! The bridge is a state machine. Each poll decides from the ring and the
//! sticky closed flags whether the caller gets bytes, end of stream, or must
//! park; each operation reports whether the opposite side's parked task must
//! be woken. The surrounding executor owns the actual wakers and performs
//! the wakes this module calls for.
use crate::ring::RingBuffer;
use vstd::prelude::*;

verus! {

/// Outcome of a fill poll on the read side.
pub enum FillPoll {
    /// This many contiguous bytes are readable.
    Ready(usize),
    /// The writer has closed and everything written has been read.
    Eof,
    /// Nothing to read yet; the read side parked and will be woken.
    Pending,
}

/// Outcome of a write poll.
pub enum WritePoll {
    /// This many bytes were taken into the ring.
    Written(usize),
    /// The reader is gone; writing is useless.
    Closed,
    /// The ring is full; the write side parked and will be woken.
    Pending,
}

/// Outcome of a flush poll.
pub enum FlushPoll {
    Ready,
    Pending,
}

/// The shared state of the bridge: the ring, the two sticky closed flags,
/// and one single-task wake slot per direction.
pub struct AsyncRingBuffer {
    ring: RingBuffer,
    is_reader_closed: bool,
    is_writer_closed: bool,
    data_waker_parked: bool,
    space_waker_parked: bool,
}

impl AsyncRingBuffer {
    /// Well-formedness of the underlying ring.
    pub open spec fn wf(self) -> bool {
        self.spec_ring().wf()
    }

    /// The underlying ring.
    pub closed spec fn spec_ring(self) -> RingBuffer {
        self.ring
    }

    /// Bytes currently buffered, oldest first.
    pub open spec fn contents(self) -> Seq<u8> {
        self.spec_ring().contents()
    }

    /// Whether the write side has closed.
    pub closed spec fn writer_closed(self) -> bool {
        self.is_writer_closed
    }

    /// Whether the read side has closed.
    pub closed spec fn reader_closed(self) -> bool {
        self.is_reader_closed
    }

    /// Whether the read side is parked waiting for data.
    pub closed spec fn data_parked(self) -> bool {
        self.data_waker_parked
    }

    /// Whether the write side is parked waiting for space.
    pub closed spec fn space_parked(self) -> bool {
        self.space_waker_parked
    }

    /// What a fill poll decides, as a function of the state: bytes when the
    /// ring holds any, end of stream when the writer has closed and the ring
    /// has drained, parking otherwise.
    pub open spec fn fill_decision(self) -> FillPoll {
        if self.spec_ring().occ() > 0 {
            FillPoll::Ready(self.spec_ring().read_len() as usize)
        } else if self.writer_closed() {
            FillPoll::Eof
        } else {
            FillPoll::Pending
        }
    }

    /// A fresh bridge over an empty ring whose capacity is the smallest
    /// power of two holding `capacity` bytes.
    pub fn nearest_async_ring_buffer(capacity: usize) -> (b: AsyncRingBuffer)
        ensures
            b.wf(),
            b.contents() == Seq::<u8>::empty(),
            !b.writer_closed(),
            !b.reader_closed(),
            !b.data_parked(),
            !b.space_parked(),
    {
        AsyncRingBuffer {
            ring: RingBuffer::nearest_ring_buffer(capacity),
            is_reader_closed: false,
            is_writer_closed: false,
            data_waker_parked: false,
            space_waker_parked: false,
        }
    }

    /// The largest contiguous readable region.
    pub fn buffer(&self) -> (r: &[u8])
        requires
            self.wf(),
        ensures
            r@ == self.contents().take(r@.len() as int),
            r@.len() == self.spec_ring().read_len(),
    {
        self.ring.buffer()
    }

    /// Read-side poll: bytes if any are buffered; end of stream once the
    /// writer has closed and the ring has drained; otherwise the read side
    /// parks. Parking after the writer closed never happens: the closed flag
    /// is checked after parking, so a close is seen within one poll.
    pub fn poll_fill_buf(&mut self) -> (r: FillPoll)
        requires
            old(self).wf(),
        ensures
            final(self).wf(),
            r == old(self).fill_decision(),
            final(self).contents() == old(self).contents(),
            final(self).spec_ring() == old(self).spec_ring(),
            final(self).writer_closed() == old(self).writer_closed(),
            final(self).reader_closed() == old(self).reader_closed(),
            final(self).space_parked() == old(self).space_parked(),
            final(self).data_parked() == (r is Pending),
    {
        let len = self.ring.len();
        if len > 0 {
            let (_, rl) = self.ring.read_range();
            self.data_waker_parked = false;
            FillPoll::Ready(rl)
        } else {
            // Park first, then re-check the closed flag: a close that raced
            // this poll is still observed now.
            self.data_waker_parked = true;
            if self.is_writer_closed {
                self.data_waker_parked = false;
                FillPoll::Eof
            } else {
                FillPoll::Pending
            }
        }
    }

    /// Consumes `n` peeked bytes and says whether a parked writer must be
    /// woken now that there is space.
    pub fn consume(&mut self, n: usize) -> (wake_space: bool)
        requires
            old(self).wf(),
            n <= old(self).spec_ring().read_len(),
        ensures
            final(self).wf(),
            final(self).contents() == old(self).contents().skip(n as int),
            wake_space == old(self).space_parked(),
            !final(self).space_parked(),
            final(self).data_parked() == old(self).data_parked(),
            final(self).writer_closed() == old(self).writer_closed(),
            final(self).reader_closed() == old(self).reader_closed(),
            final(self).spec_ring().cap() == old(self).spec_ring().cap(),
    {
        self.ring.consume(n);
        let wake = self.space_waker_parked;
        self.space_waker_parked = false;
        wake
    }

    /// Write-side poll: refused once the reader is gone; parks on a full
    /// ring; otherwise takes as much of `data` as fits the contiguous
    /// writable region. Reports whether a parked reader must be woken.
    pub fn poll_write(&mut self, data: &[u8]) -> (r: (WritePoll, bool))
        requires
            old(self).wf(),
        ensures
            final(self).wf(),
            final(self).writer_closed() == old(self).writer_closed(),
            final(self).reader_closed() == old(self).reader_closed(),
            final(self).spec_ring().cap() == old(self).spec_ring().cap(),
            old(self).reader_closed() ==> r.0 is Closed && *final(self) == *old(self),
            !old(self).reader_closed() && old(self).spec_ring().write_len() == 0 ==> {
                &&& r.0 is Pending
                &&& !r.1
                &&& final(self).space_parked()
                &&& final(self).contents() == old(self).contents()
                &&& final(self).data_parked() == old(self).data_parked()
            },
            !old(self).reader_closed() && old(self).spec_ring().write_len() > 0 ==> {
                &&& r.0 == WritePoll::Written(
                    if data@.len() <= old(self).spec_ring().write_len() {
                        data@.len() as usize
                    } else {
                        old(self).spec_ring().write_len() as usize
                    },
                )
                &&& final(self).contents() == old(self).contents() + data@.take(
                    if data@.len() <= old(self).spec_ring().write_len() {
                        data@.len() as int
                    } else {
                        old(self).spec_ring().write_len() as int
                    },
                )
                &&& r.1 == old(self).data_parked()
                &&& !final(self).data_parked()
                &&& final(self).space_parked() == old(self).space_parked()
            },
    {
        if self.is_reader_closed {
            return (WritePoll::Closed, false);
        }
        let (_, wl) = self.ring.write_range();
        if wl == 0 {
            // Park; with the reader still open the parked writer is woken by
            // the next consume.
            self.space_waker_parked = true;
            return (WritePoll::Pending, false);
        }
        let n = self.ring.write(data);
        let wake = self.data_waker_parked;
        self.data_waker_parked = false;
        (WritePoll::Written(n), wake)
    }

    /// Flush poll: ready exactly when the ring is not full; a full ring
    /// parks the write side until the reader makes room.
    pub fn poll_flush(&mut self) -> (r: FlushPoll)
        requires
            old(self).wf(),
        ensures
            final(self).wf(),
            final(self).contents() == old(self).contents(),
            final(self).spec_ring() == old(self).spec_ring(),
            final(self).writer_closed() == old(self).writer_closed(),
            final(self).reader_closed() == old(self).reader_closed(),
            final(self).data_parked() == old(self).data_parked(),
            (r is Ready) == (old(self).spec_ring().write_len() > 0),
            final(self).space_parked() == (r is Pending),
    {
        let (_, wl) = self.ring.write_range();
        if wl > 0 {
            self.space_waker_parked = false;
            FlushPoll::Ready
        } else {
            self.space_waker_parked = true;
            FlushPoll::Pending
        }
    }

    /// Closes the write side; closing twice is a contract violation. Reports
    /// whether a parked reader must be woken to observe the close.
    pub fn close_writer(&mut self) -> (wake_data: bool)
        requires
            old(self).wf(),
            !old(self).writer_closed(),
        ensures
            final(self).wf(),
            final(self).writer_closed(),
            final(self).contents() == old(self).contents(),
            final(self).spec_ring() == old(self).spec_ring(),
            final(self).reader_closed() == old(self).reader_closed(),
            wake_data == old(self).data_parked(),
            !final(self).data_parked(),
            final(self).space_parked() == old(self).space_parked(),
    {
        self.is_writer_closed = true;
        let wake = self.data_waker_parked;
        self.data_waker_parked = false;
        wake
    }

    /// Closes the read side, as dropping the reader does. Reports whether a
    /// parked writer must be woken to observe the close.
    pub fn close_reader(&mut self) -> (wake_space: bool)
        requires
            old(self).wf(),
        ensures
            final(self).wf(),
            final(self).reader_closed(),
            final(self).contents() == old(self).contents(),
            final(self).spec_ring() == old(self).spec_ring(),
            final(self).writer_closed() == old(self).writer_closed(),
            wake_space == old(self).space_parked(),
            !final(self).space_parked(),
            final(self).data_parked() == old(self).data_parked(),
    {
        self.is_reader_closed = true;
        let wake = self.space_waker_parked;
        self.space_waker_parked = false;
        wake
    }
}

/// Close propagation: once the writer has closed and everything written has
/// been consumed, the very next fill poll reports end of stream — never
/// `Pending`.
pub proof fn lemma_close_propagation(b: AsyncRingBuffer)
    requires
        b.wf(),
        b.writer_closed(),
        b.spec_ring().occ() == 0,
    ensures
        b.fill_decision() is Eof,
{
}

/// Buffered copy: the state that drives one reader-to-writer transfer
/// through a ring, remembering whether the source has ended.
pub struct CopyBufferedBuffer {
    is_read_done: bool,
    ring: RingBuffer,
}

impl CopyBufferedBuffer {
    /// Well-formedness of the ring.
    pub open spec fn wf(self) -> bool {
        self.spec_ring().wf()
    }

    /// The buffered bytes still to be written out.
    pub closed spec fn spec_ring(self) -> RingBuffer {
        self.ring
    }

    /// Whether the source has reported end of stream.
    pub closed spec fn read_done(self) -> bool {
        self.is_read_done
    }

    /// A fresh transfer state over an empty ring.
    pub fn new(capacity: usize) -> (b: CopyBufferedBuffer)
        ensures
            b.wf(),
            !b.read_done(),
            b.spec_ring().contents() == Seq::<u8>::empty(),
    {
        CopyBufferedBuffer { is_read_done: false, ring: RingBuffer::nearest_ring_buffer(capacity) }
    }

    /// How many bytes the next source read may deliver: the contiguous
    /// writable region. Zero demands writing out buffered bytes first.
    pub fn read_capacity(&self) -> (n: usize)
        requires
            self.wf(),
        ensures
            n == self.spec_ring().write_len(),
    {
        let (_, wl) = self.ring.write_range();
        wl
    }

    /// Feeds bytes the source delivered; an empty delivery is end of stream.
    pub fn note_input(&mut self, data: &[u8]) -> (n: usize)
        requires
            old(self).wf(),
            data@.len() <= old(self).spec_ring().write_len(),
        ensures
            final(self).wf(),
            n == data@.len(),
            final(self).spec_ring().contents() == old(self).spec_ring().contents() + data@,
            final(self).read_done() == (old(self).read_done() || data@.len() == 0),
            final(self).spec_ring().cap() == old(self).spec_ring().cap(),
    {
        if data.len() == 0 {
            self.is_read_done = true;
            proof {
                assert(final(self).spec_ring().contents() =~= old(self).spec_ring().contents()
                    + data@);
            }
            return 0;
        }
        let n = self.ring.write(data);
        proof {
            assert(data@.take(n as int) =~= data@);
        }
        n
    }

    /// The bytes the sink should be offered next: the contiguous readable
    /// region.
    pub fn pending_output(&self) -> (r: &[u8])
        requires
            self.wf(),
        ensures
            r@ == self.spec_ring().contents().take(r@.len() as int),
            r@.len() == self.spec_ring().read_len(),
            (r@.len() == 0) == (self.spec_ring().occ() == 0),
    {
        self.ring.buffer()
    }

    /// Notes that the sink accepted `n` bytes.
    pub fn note_output(&mut self, n: usize)
        requires
            old(self).wf(),
            n <= old(self).spec_ring().read_len(),
        ensures
            final(self).wf(),
            final(self).spec_ring().contents() == old(self).spec_ring().contents().skip(n as int),
            final(self).read_done() == old(self).read_done(),
            final(self).spec_ring().cap() == old(self).spec_ring().cap(),
    {
        self.ring.consume(n);
    }

    /// The transfer is complete when the source ended and the ring drained;
    /// all that remains is flushing the sink.
    pub fn finished(&self) -> (r: bool)
        requires
            self.wf(),
        ensures
            r == (self.read_done() && self.spec_ring().occ() == 0),
    {
        self.is_read_done && self.ring.len() == 0
    }
}

} // verus!
