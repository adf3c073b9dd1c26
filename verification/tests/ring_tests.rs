use mrvn::bridge::{AsyncRingBuffer, CopyBufferedBuffer, FillPoll, FlushPoll, WritePoll};
use mrvn::ring::RingBuffer;

#[test]
fn nearest_capacity_rounds_up_to_powers_of_two() {
    assert_eq!(RingBuffer::nearest_ring_buffer(0).capacity(), 1);
    assert_eq!(RingBuffer::nearest_ring_buffer(1).capacity(), 1);
    assert_eq!(RingBuffer::nearest_ring_buffer(6).capacity(), 8);
    assert_eq!(RingBuffer::nearest_ring_buffer(8).capacity(), 8);
    assert_eq!(RingBuffer::nearest_ring_buffer(9).capacity(), 16);
}

#[test]
fn ring_interleaved_writes_and_reads() {
    // Capacity 8; the writer pushes 10 bytes in two 5-byte writes while the
    // reader consumes 8 in between. The readable bytes are the first 8
    // written, in order, and the second write takes only the 3 bytes that
    // fit until the reader frees space.
    let mut rb = RingBuffer::nearest_ring_buffer(8);
    assert_eq!(rb.capacity(), 8);

    let first = [1u8, 2, 3, 4, 5];
    assert_eq!(rb.write(&first), 5);
    assert_eq!(rb.len(), 5);

    let second = [6u8, 7, 8, 9, 10];
    // Only three bytes fit: the ring holds five of eight.
    assert_eq!(rb.write(&second), 3);
    assert_eq!(rb.len(), 8);

    // Full ring: no writable region.
    assert_eq!(rb.write(&second[3..]), 0);

    // The reader sees the first eight bytes in order; a peek never wraps,
    // so it may take two rounds.
    let mut seen: Vec<u8> = Vec::new();
    while seen.len() < 8 {
        let chunk = rb.buffer().to_vec();
        assert!(!chunk.is_empty());
        let n = chunk.len();
        seen.extend_from_slice(&chunk);
        rb.consume(n);
    }
    assert_eq!(seen, vec![1, 2, 3, 4, 5, 6, 7, 8]);

    // With space freed the writer finishes its second write.
    assert_eq!(rb.write(&second[3..]), 2);
    let chunk = rb.buffer().to_vec();
    let n = chunk.len();
    rb.consume(n);
    let mut rest = chunk;
    while rb.len() > 0 {
        let more = rb.buffer().to_vec();
        let k = more.len();
        rest.extend_from_slice(&more);
        rb.consume(k);
    }
    assert_eq!(rest, vec![9, 10]);
}

#[test]
fn ring_wraps_around_the_buffer_end() {
    let mut rb = RingBuffer::nearest_ring_buffer(4);
    assert_eq!(rb.write(&[1, 2, 3]), 3);
    rb.consume(3);
    // The cursors sit at offset 3; a write of 3 bytes is cut at the end of
    // the buffer and finished after a second call.
    assert_eq!(rb.write(&[4, 5, 6]), 1);
    assert_eq!(rb.write(&[5, 6]), 2);
    let mut seen: Vec<u8> = Vec::new();
    while rb.len() > 0 {
        let chunk = rb.buffer().to_vec();
        let n = chunk.len();
        seen.extend_from_slice(&chunk);
        rb.consume(n);
    }
    assert_eq!(seen, vec![4, 5, 6]);
}

#[test]
fn close_propagates_to_reader_within_one_poll() {
    let mut b = AsyncRingBuffer::nearest_async_ring_buffer(8);
    match b.poll_write(&[1, 2, 3]).0 {
        WritePoll::Written(n) => assert_eq!(n, 3),
        _ => panic!("the write fits"),
    }
    let wake = b.close_writer();
    assert!(!wake);
    // Drain what was written.
    match b.poll_fill_buf() {
        FillPoll::Ready(n) => {
            assert_eq!(n, 3);
            assert_eq!(b.buffer().to_vec(), vec![1, 2, 3]);
            b.consume(3);
        }
        _ => panic!("three bytes are buffered"),
    }
    // Drained and closed: the very next poll reports end of stream.
    match b.poll_fill_buf() {
        FillPoll::Eof => {}
        _ => panic!("a drained, closed bridge reports end of stream"),
    }
}

#[test]
fn bridge_parks_and_wakes() {
    let mut b = AsyncRingBuffer::nearest_async_ring_buffer(2);
    // Nothing buffered: the reader parks.
    match b.poll_fill_buf() {
        FillPoll::Pending => {}
        _ => panic!("an open empty bridge parks the reader"),
    }
    // A write wakes the parked reader.
    let (poll, wake_data) = b.poll_write(&[7, 8, 9]);
    match poll {
        WritePoll::Written(n) => assert_eq!(n, 2),
        _ => panic!("the write takes what fits"),
    }
    assert!(wake_data);
    // The ring is full: the writer parks, and a flush would park too.
    match b.poll_write(&[9]).0 {
        WritePoll::Pending => {}
        _ => panic!("a full bridge parks the writer"),
    }
    match b.poll_flush() {
        FlushPoll::Pending => {}
        _ => panic!("a full bridge cannot flush"),
    }
    // Consuming wakes the parked writer.
    match b.poll_fill_buf() {
        FillPoll::Ready(_) => {}
        _ => panic!("data is buffered"),
    }
    let wake_space = b.consume(2);
    assert!(wake_space);
    match b.poll_flush() {
        FlushPoll::Ready => {}
        _ => panic!("an emptied bridge flushes"),
    }
}

#[test]
fn writes_refused_once_reader_closed() {
    let mut b = AsyncRingBuffer::nearest_async_ring_buffer(8);
    let _ = b.close_reader();
    match b.poll_write(&[1]).0 {
        WritePoll::Closed => {}
        _ => panic!("writing to a closed reader is useless"),
    }
}

#[test]
fn buffered_copy_runs_to_completion() {
    let mut copy = CopyBufferedBuffer::new(4);
    let data = [10u8, 20, 30, 40, 50, 60];
    let mut src: &[u8] = &data;
    let mut sink: Vec<u8> = Vec::new();
    loop {
        let room = copy.read_capacity();
        if room > 0 && !src.is_empty() {
            let take = room.min(src.len());
            copy.note_input(&src[..take]);
            src = &src[take..];
        } else if src.is_empty() {
            copy.note_input(&[]);
        }
        let pending = copy.pending_output().to_vec();
        if !pending.is_empty() {
            sink.extend_from_slice(&pending);
            copy.note_output(pending.len());
        }
        if copy.finished() {
            break;
        }
    }
    assert_eq!(sink, data.to_vec());
}
