//! Byte ring buffer: contiguous hand-off between a producer and a consumer.
//!
//! Capacity is a power of two and stays below half the address space, so the
//! wrapping cursor arithmetic is unambiguous. The two cursors count all bytes
//! ever consumed and written, reduced modulo 2^64; occupancy is their
//! wrapping difference. A peek near the end of the buffer returns a short
//! region (no wrap splicing); callers peek again after consuming to reach the
//! bytes past the wrap boundary.
use vstd::arithmetic::div_mod::{
    lemma_add_mod_noop, lemma_fundamental_div_mod, lemma_mod_bound, lemma_mod_mod,
    lemma_mod_multiples_vanish, lemma_small_mod, lemma_sub_mod_noop,
};
use vstd::arithmetic::power2::{lemma_pow2_adds, lemma_pow2_pos, pow2};
use vstd::prelude::*;
use vstd::slice::slice_subrange;

verus! {

/// The modulus of the wrapping cursors.
pub open spec fn cursor_modulus() -> int {
    0x1_0000_0000_0000_0000
}

/// The largest capacity a ring buffer is given: one power of two below half
/// of the smallest address space this code runs on.
pub open spec fn max_ring_capacity() -> int {
    0x4000_0000
}

/// A power of two no larger than `max_ring_capacity`.
pub open spec fn is_ring_capacity(n: nat) -> bool {
    exists|k: nat| k <= 30 && n == pow2(k)
}

/// Read-side cursor: bytes consumed so far, reduced modulo 2^64.
pub struct Reader {
    pub pos: u64,
    pub total: Ghost<nat>,
}

/// Write-side cursor: bytes written so far, reduced modulo 2^64.
pub struct Writer {
    pub pos: u64,
    pub total: Ghost<nat>,
}

/// Single-producer/single-consumer byte ring with power-of-two capacity.
pub struct RingBuffer {
    buf: Vec<u8>,
    reader: Reader,
    writer: Writer,
}

impl RingBuffer {
    /// Capacity in bytes.
    pub closed spec fn cap(self) -> nat {
        self.buf.len() as nat
    }

    /// Bytes written since creation.
    pub closed spec fn total_written(self) -> nat {
        self.writer.total@
    }

    /// Bytes consumed since creation.
    pub closed spec fn total_read(self) -> nat {
        self.reader.total@
    }

    /// Occupancy: bytes currently held.
    pub open spec fn occ(self) -> nat {
        (self.total_written() - self.total_read()) as nat
    }

    /// Free space.
    pub open spec fn free(self) -> nat {
        (self.cap() - self.occ()) as nat
    }

    /// Physical offset of the read cursor.
    pub open spec fn read_offset(self) -> int {
        self.total_read() as int % self.cap() as int
    }

    /// Physical offset of the write cursor.
    pub open spec fn write_offset(self) -> int {
        self.total_written() as int % self.cap() as int
    }

    /// Length of the contiguous readable region: all held bytes, cut at the
    /// end of the buffer.
    pub open spec fn read_len(self) -> nat {
        if self.occ() <= self.cap() - self.read_offset() {
            self.occ()
        } else {
            (self.cap() - self.read_offset()) as nat
        }
    }

    /// Length of the contiguous writable region: all free space, cut at the
    /// end of the buffer.
    pub open spec fn write_len(self) -> nat {
        if self.free() <= self.cap() - self.write_offset() {
            self.free()
        } else {
            (self.cap() - self.write_offset()) as nat
        }
    }

    /// Well-formedness: a power-of-two capacity, cursors that are the
    /// reductions of the true totals, and an occupancy within bounds.
    pub closed spec fn wf(self) -> bool {
        &&& is_ring_capacity(self.buf.len() as nat)
        &&& self.reader.pos as int == self.total_read() as int % cursor_modulus()
        &&& self.writer.pos as int == self.total_written() as int % cursor_modulus()
        &&& self.total_read() <= self.total_written()
        &&& self.total_written() - self.total_read() <= self.cap()
    }

    /// The bytes currently held, oldest first.
    pub closed spec fn contents(self) -> Seq<u8> {
        Seq::new(
            self.occ(),
            |i: int| self.buf[(self.total_read() + i) % self.cap() as int],
        )
    }

    /// The capacity divides the cursor modulus, so reducing a wrapped cursor
    /// by the capacity gives the true physical offset.
    proof fn lemma_cursor_offset(self, total: nat, pos: u64)
        requires
            self.wf(),
            pos as int == total as int % cursor_modulus(),
        ensures
            pos as int % self.cap() as int == total as int % self.cap() as int,
            0 <= (total as int % self.cap() as int) < self.cap() as int,
    {
        let k = choose|k: nat| k <= 30 && self.buf.len() == pow2(k);
        lemma_pow2_adds(k, (64 - k) as nat);
        lemma_pow2_pos(k);
        lemma_pow2_pos((64 - k) as nat);
        vstd::arithmetic::power2::lemma2_to64();
        vstd::arithmetic::power2::lemma2_to64_rest();
        lemma_mod_mod(total as int, self.cap() as int, pow2((64 - k) as nat) as int);
        lemma_mod_bound(total as int, self.cap() as int);
    }

    /// The wrapping difference of the cursors is the occupancy.
    proof fn lemma_occ_from_cursors(self)
        requires
            self.wf(),
        ensures
            vstd::wrapping::u64_specs::wrapping_sub(self.writer.pos, self.reader.pos)
                == self.occ(),
    {
        let m = cursor_modulus();
        let tw = self.total_written() as int;
        let tr = self.total_read() as int;
        lemma_sub_mod_noop(tw, tr, m);
        lemma_small_mod(self.occ(), m as nat);
        let w = self.writer.pos as int;
        let r = self.reader.pos as int;
        // (w - r) % m == (tw - tr) % m == occ, and the wrapping difference
        // is exactly (w - r) % m.
        lemma_sub_mod_noop(w, r, m);
        lemma_mod_mod_same(w - r, m);
        if w - r < 0 {
            lemma_mod_multiples_vanish(1, w - r, m);
            lemma_small_mod((w - r + m) as nat, m as nat);
        } else {
            lemma_small_mod((w - r) as nat, m as nat);
        }
    }

    /// Two distinct logical positions below the capacity sit in distinct
    /// physical slots.
    proof fn lemma_slot_injective(self, base: int, a: int, b: int)
        requires
            self.wf(),
            0 <= a < b < self.cap(),
            base >= 0,
        ensures
            (base + a) % self.cap() as int != (base + b) % self.cap() as int,
    {
        let c = self.cap() as int;
        if (base + a) % c == (base + b) % c {
            lemma_fundamental_div_mod(base + a, c);
            lemma_fundamental_div_mod(base + b, c);
            let qa = (base + a) / c;
            let qb = (base + b) / c;
            assert(b - a == c * (qb - qa)) by (nonlinear_arith)
                requires
                    base + a == c * qa + (base + a) % c,
                    base + b == c * qb + (base + b) % c,
                    (base + a) % c == (base + b) % c,
            ;
            assert(false) by (nonlinear_arith)
                requires
                    b - a == c * (qb - qa),
                    0 < b - a < c,
            ;
        }
    }

    /// A logical position within one contiguous run maps to base offset plus
    /// displacement.
    proof fn lemma_contiguous_slot(self, total: nat, i: int)
        requires
            self.wf(),
            0 <= i,
            total as int % self.cap() as int + i < self.cap(),
        ensures
            (total + i) % self.cap() as int == total as int % self.cap() as int + i,
    {
        let c = self.cap() as int;
        lemma_pow2_pos_for(self);
        lemma_add_mod_noop(total as int, i, c);
        lemma_mod_bound(total as int, c);
        lemma_small_mod(i as nat, c as nat);
        lemma_small_mod((total as int % c + i) as nat, c as nat);
    }

    /// Creates an empty ring buffer whose capacity is the smallest power of
    /// two that holds `capacity` bytes, clamped to `max_ring_capacity`.
    pub fn nearest_ring_buffer(capacity: usize) -> (rb: RingBuffer)
        ensures
            rb.wf(),
            rb.occ() == 0,
            rb.contents() == Seq::<u8>::empty(),
            is_ring_capacity(rb.cap()),
            rb.cap() >= capacity || rb.cap() == max_ring_capacity(),
            capacity > 0 ==> rb.cap() < 2 * capacity || rb.cap() == 1,
    {
        let mut cap: usize = 1;
        let ghost mut k: nat = 0;
        proof {
            vstd::arithmetic::power2::lemma2_to64();
        }
        while cap < capacity && cap < 0x4000_0000
            invariant
                1 <= cap,
                k <= 30,
                cap == pow2(k),
                cap <= 0x4000_0000,
                cap == 1 || cap < 2 * capacity,
            decreases 0x4000_0000 - cap,
        {
            proof {
                vstd::arithmetic::power2::lemma2_to64();
                if k >= 30 {
                    vstd::arithmetic::power2::lemma_pow2_strictly_increases(30, k);
                }
                lemma_pow2_adds(k, 1);

                k = k + 1;
            }
            cap = cap * 2;
        }
        let buf = vec![0u8; cap];
        let rb = RingBuffer {
            buf,
            reader: Reader { pos: 0, total: Ghost(0) },
            writer: Writer { pos: 0, total: Ghost(0) },
        };
        proof {
            let c = rb.cap() as int;
            lemma_small_mod(0, cursor_modulus() as nat);
            assert(rb.contents() =~= Seq::<u8>::empty());
        }
        rb
    }

    /// Number of bytes currently held.
    pub fn len(&self) -> (n: usize)
        requires
            self.wf(),
        ensures
            n == self.occ(),
    {
        proof {
            self.lemma_occ_from_cursors();
        }
        let occ = self.writer.pos.wrapping_sub(self.reader.pos);
        occ as usize
    }

    /// Capacity in bytes.
    pub fn capacity(&self) -> (n: usize)
        ensures
            n == self.cap(),
    {
        self.buf.len()
    }

    /// The contiguous readable region, as start offset and length.
    /// Empty exactly when the ring is empty.
    pub fn read_range(&self) -> (r: (usize, usize))
        requires
            self.wf(),
        ensures
            r.0 == self.read_offset(),
            r.1 == self.read_len(),
            r.0 + r.1 <= self.cap(),
            (r.1 == 0) == (self.occ() == 0),
    {
        proof {
            self.lemma_occ_from_cursors();
            self.lemma_cursor_offset(self.total_read(), self.reader.pos);
            self.lemma_cursor_offset(self.total_written(), self.writer.pos);
            self.lemma_read_geometry();
        }
        let cap = self.buf.len() as u64;
        let occ = self.writer.pos.wrapping_sub(self.reader.pos);
        let read_off = (self.reader.pos % cap) as usize;
        let write_off = (self.writer.pos % cap) as usize;
        if occ == 0 {
            (read_off, 0)
        } else if read_off >= write_off {
            (read_off, self.buf.len() - read_off)
        } else {
            (read_off, write_off - read_off)
        }
    }

    /// The contiguous writable region, as start offset and length.
    /// Empty exactly when the ring is full.
    pub fn write_range(&self) -> (r: (usize, usize))
        requires
            self.wf(),
        ensures
            r.0 == self.write_offset(),
            r.1 == self.write_len(),
            r.0 + r.1 <= self.cap(),
            (r.1 == 0) == (self.occ() == self.cap()),
    {
        proof {
            self.lemma_occ_from_cursors();
            self.lemma_cursor_offset(self.total_read(), self.reader.pos);
            self.lemma_cursor_offset(self.total_written(), self.writer.pos);
            self.lemma_read_geometry();
        }
        let cap = self.buf.len() as u64;
        let occ = self.writer.pos.wrapping_sub(self.reader.pos);
        let read_off = (self.reader.pos % cap) as usize;
        let write_off = (self.writer.pos % cap) as usize;
        if occ as usize == self.buf.len() {
            (write_off, 0)
        } else if read_off <= write_off {
            (write_off, self.buf.len() - write_off)
        } else {
            (write_off, read_off - write_off)
        }
    }

    /// Relates physical offsets to occupancy: how the two contiguous regions
    /// are laid out.
    proof fn lemma_read_geometry(self)
        requires
            self.wf(),
        ensures
            self.write_offset() == (self.read_offset() + self.occ()) % self.cap() as int,
            0 <= self.read_offset() < self.cap(),
            0 <= self.write_offset() < self.cap(),
            self.read_offset() < self.write_offset() ==> self.occ() == self.write_offset()
                - self.read_offset(),
            self.read_offset() > self.write_offset() ==> self.occ() == self.cap()
                - self.read_offset() + self.write_offset(),
            self.read_offset() == self.write_offset() ==> self.occ() == 0 || self.occ()
                == self.cap(),
    {
        let c = self.cap() as int;
        lemma_pow2_pos_for(self);
        let tr = self.total_read() as int;
        let occ = self.occ() as int;
        lemma_mod_bound(tr, c);
        lemma_fundamental_div_mod(tr, c);
        lemma_mod_multiples_vanish(tr / c, self.read_offset() + occ, c);
        assert(tr + occ == c * (tr / c) + (self.read_offset() + occ));
        lemma_mod_bound(self.total_written() as int, c);
        let ro = self.read_offset();
        if ro + occ < c {
            lemma_small_mod((ro + occ) as nat, c as nat);
        } else {
            lemma_mod_multiples_vanish(-1, ro + occ, c);
            lemma_small_mod((ro + occ - c) as nat, c as nat);
        }
    }

    /// The largest contiguous readable region, without wrapping. Empty
    /// exactly when the ring is empty; otherwise it holds the oldest bytes.
    pub fn buffer(&self) -> (r: &[u8])
        requires
            self.wf(),
        ensures
            r@ == self.contents().take(self.read_len() as int),
            r@.len() == self.read_len(),
            (r@.len() == 0) == (self.occ() == 0),
    {
        let (start, len) = self.read_range();
        let r = slice_subrange(self.buf.as_slice(), start, start + len);
        proof {
            assert forall|i: int| 0 <= i < len implies r@[i] == self.contents()[i] by {
                self.lemma_contiguous_slot(self.total_read(), i);
            }
            assert(r@ =~= self.contents().take(self.read_len() as int));
        }
        r
    }

    /// Advances the read cursor over `n` already-peeked bytes.
    pub fn consume(&mut self, n: usize)
        requires
            old(self).wf(),
            n <= old(self).read_len(),
        ensures
            final(self).wf(),
            final(self).cap() == old(self).cap(),
            final(self).contents() == old(self).contents().skip(n as int),
            final(self).occ() == old(self).occ() - n,
            final(self).total_read() == old(self).total_read() + n,
            final(self).total_written() == old(self).total_written(),
    {
        proof {
            lemma_pow2_pos_for(*self);
            vstd::arithmetic::div_mod::lemma_mod_bound(
                self.total_read() as int,
                self.cap() as int,
            );
            lemma_wrapping_advance(self.reader.pos, self.reader.total@, n as nat);
        }
        self.reader.pos = self.reader.pos.wrapping_add(n as u64);
        proof {
            self.reader.total@ = self.reader.total@ + n as nat;
        }
        proof {
            assert(self.contents() =~= old(self).contents().skip(n as int));
        }
    }

    /// Copies as much of `data` as fits the contiguous writable region and
    /// advances the write cursor; returns how many bytes were taken. Takes
    /// zero bytes exactly when the ring is full or `data` is empty.
    pub fn write(&mut self, data: &[u8]) -> (n: usize)
        requires
            old(self).wf(),
        ensures
            final(self).wf(),
            final(self).cap() == old(self).cap(),
            n == if data@.len() <= old(self).write_len() {
                data@.len() as int
            } else {
                old(self).write_len() as int
            },
            final(self).contents() == old(self).contents() + data@.take(n as int),
            final(self).total_read() == old(self).total_read(),
            final(self).total_written() == old(self).total_written() + n,
            old(self).occ() == old(self).cap() ==> n == 0,
    {
        let (start, len) = self.write_range();
        let n = if data.len() < len {
            data.len()
        } else {
            len
        };
        let ghost pre = *self;
        let mut i: usize = 0;
        while i < n
            invariant
                *self == (RingBuffer { buf: self.buf, ..pre }),
                pre.wf(),
                self.buf.len() == pre.buf.len(),
                i <= n,
                n <= data@.len(),
                start == pre.write_offset(),
                start + n <= pre.cap(),
                n <= pre.write_len(),
                forall|j: int| 0 <= j < i ==> self.buf[start + j] == data@[j],
                forall|j: int|
                    0 <= j < self.buf.len() && !(start <= j < start + i) ==> self.buf[j]
                        == pre.buf[j],
            decreases n - i,
        {
            let b = data[i];
            self.buf[start + i] = b;
            i += 1;
        }
        proof {
            lemma_wrapping_advance(self.writer.pos, self.writer.total@, n as nat);
        }
        self.writer.pos = self.writer.pos.wrapping_add(n as u64);
        proof {
            self.writer.total@ = self.writer.total@ + n as nat;
        }
        proof {
            let c = pre.cap() as int;
            let tr = pre.total_read() as int;
            pre.lemma_read_geometry();
            assert forall|idx: int| 0 <= idx < self.occ() implies self.contents()[idx]
                == (pre.contents() + data@.take(n as int))[idx] by {
                if idx < pre.occ() {
                    // Old bytes sit outside the region that was overwritten.
                    lemma_mod_bound(tr + idx, c);
                    if (tr + idx) % c >= start && (tr + idx) % c < start + n {
                        let j = (tr + idx) % c - start;
                        // Slot (tr + idx) equals slot (tr + occ + j): injectivity
                        // over one capacity span rules this out.
                        pre.lemma_contiguous_slot(pre.total_written(), j);
                        pre.lemma_slot_injective(tr, idx, pre.occ() + j);
                        lemma_mod_multiples_vanish(1, idx - (pre.occ() + j), c);
                        lemma_add_mod_noop(tr + idx, 0, c);
                        assert((tr + (pre.occ() + j)) % c == (tr + pre.occ() + j) % c);
                        assert((tr + pre.occ() + j) % c == start + j);
                        assert(false);
                    }
                } else {
                    let j = idx - pre.occ();
                    pre.lemma_contiguous_slot(pre.total_written(), j);
                    assert((tr + idx) % c == (pre.total_written() + j) % c) by {
                        assert(tr + idx == pre.total_written() + j);
                    }
                }
            }
            assert(self.contents() =~= pre.contents() + data@.take(n as int));
        }
        n
    }
}

/// Positive capacity for a well-formed ring.
proof fn lemma_pow2_pos_for(rb: RingBuffer)
    requires
        rb.wf(),
    ensures
        rb.cap() > 0,
{
    let k = choose|k: nat| k <= 30 && rb.cap() == pow2(k);
    lemma_pow2_pos(k);
}

/// Modulo of a value already below the modulus.
proof fn lemma_mod_mod_same(x: int, m: int)
    requires
        m > 0,
    ensures
        x % m % m == x % m,
{
    lemma_mod_bound(x, m);
    lemma_small_mod((x % m) as nat, m as nat);
}

/// Advancing a wrapped cursor by `n` keeps it the reduction of the advanced
/// total.
proof fn lemma_wrapping_advance(pos: u64, total: nat, n: nat)
    requires
        n < cursor_modulus(),
        pos as int == total as int % cursor_modulus(),
    ensures
        vstd::wrapping::u64_specs::wrapping_add(pos, n as u64) as int == (total + n) as int
            % cursor_modulus(),
{
    let m = cursor_modulus();
    lemma_add_mod_noop(total as int, n as int, m);
    lemma_small_mod(n, m as nat);
    lemma_mod_bound(total as int, m);
    let s = pos as int + n;
    if s > u64::MAX {
        lemma_mod_multiples_vanish(-1, s, m);
        lemma_small_mod((s - m) as nat, m as nat);
    } else {
        lemma_small_mod(s as nat, m as nat);
    }
    lemma_mod_mod_same(s, m);
}

/// At all times a ring holds between zero and `cap` bytes, and a full ring
/// offers no writable region.
pub proof fn lemma_ring_occupancy(rb: RingBuffer)
    requires
        rb.wf(),
    ensures
        0 <= rb.occ() <= rb.cap(),
        rb.occ() == rb.cap() ==> rb.write_len() == 0,
{
    lemma_pow2_pos_for(rb);
    lemma_mod_bound(rb.total_written() as int, rb.cap() as int);
}

/// A well-formed ring whose writable region is empty is exactly full, and one
/// whose readable region is empty is exactly empty.
pub proof fn lemma_ring_regions(rb: RingBuffer)
    requires
        rb.wf(),
    ensures
        (rb.read_len() == 0) == (rb.occ() == 0),
        (rb.write_len() == 0) == (rb.occ() == rb.cap()),
{
    rb.lemma_read_geometry();
}

} // verus!
