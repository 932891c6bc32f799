use stardust_quic::framing::{
    FramedWriter, QueueBuf, StreamWrite, StreamWriteOutcome, WriteHistory,
    WriteProgress, WriteStep,
};

/// A stream that answers each write with the next scripted outcome and
/// records the chunks it was given.
struct Scripted {
    answers: Vec<StreamWriteOutcome<&'static str>>,
    seen: Vec<Vec<u8>>,
}

impl StreamWrite for Scripted {
    type Error = &'static str;

    fn history(&self) -> WriteHistory<&'static str> {
        unreachable!("a specification, never called at run time")
    }

    fn write(&mut self, bytes: &[u8]) -> StreamWriteOutcome<&'static str> {
        self.seen.push(bytes.to_vec());
        if self.answers.is_empty() {
            StreamWriteOutcome::Complete
        } else {
            self.answers.remove(0)
        }
    }
}

#[test]
fn queue_prefixes_length() {
    let mut w = FramedWriter::new();
    w.queue(vec![1, 2, 3]);
    w.queue(vec![0u8; 300]);
    let q = w.take_queue();
    assert_eq!(q.len(), 4);
    assert_eq!(q[0], vec![3]);
    assert_eq!(q[1], vec![1, 2, 3]);
    // 300 = 0x12c, two bytes with tag 01 in the top bits
    assert_eq!(q[2], vec![0x41, 0x2c]);
    assert_eq!(q[3].len(), 300);
    assert!(w.take_queue().is_empty());
}

#[test]
fn write_progress_steps() {
    let mut p = WriteProgress::new();
    assert!(matches!(p.step::<()>(4, StreamWriteOutcome::Complete), WriteStep::Continue));
    assert!(matches!(p.step::<()>(4, StreamWriteOutcome::Partial(2)), WriteStep::Continue));
    assert_eq!(p.total, 6);
    assert!(matches!(p.step::<()>(4, StreamWriteOutcome::Blocked), WriteStep::Finish(Ok(6))));
    assert!(matches!(p.step(4, StreamWriteOutcome::Error("gone")), WriteStep::Finish(Err("gone"))));
    assert_eq!(p.total, 6);
}

#[test]
fn queue_buf_cursor() {
    let chunks = vec![vec![1u8, 2, 3], vec![4u8, 5]];
    let mut b = QueueBuf::new(&chunks);
    assert_eq!(b.remaining(), 5);
    assert_eq!(b.chunk(), &[1, 2, 3]);
    b.advance(1);
    assert_eq!(b.chunk(), &[2, 3]);
    assert_eq!(b.remaining(), 4);
    b.advance(2);
    assert_eq!(b.chunk(), &[4, 5]);
    assert_eq!(b.remaining(), 2);
}

#[test]
fn queue_buf_advance_past_chunk() {
    let chunks = vec![vec![1u8, 2], vec![3u8, 4, 5]];
    let mut b = QueueBuf::new(&chunks);
    b.advance(3);
    assert_eq!(b.chunk(), &[4, 5]);
    assert_eq!(b.remaining(), 2);
}

#[test]
fn write_whole_queue() {
    let mut w = FramedWriter::new();
    w.queue(vec![1, 2, 3]);
    let mut s = Scripted { answers: vec![], seen: vec![] };
    assert_eq!(w.write(&mut s), Ok(4));
    assert_eq!(s.seen, vec![vec![3], vec![1, 2, 3]]);
    assert!(w.take_queue().is_empty());
}

#[test]
fn write_partial_then_blocked() {
    let mut w = FramedWriter::new();
    w.queue(vec![9; 10]);
    w.queue(vec![8; 5]);
    let mut s = Scripted {
        answers: vec![
            StreamWriteOutcome::Complete,
            StreamWriteOutcome::Partial(4),
            StreamWriteOutcome::Blocked,
        ],
        seen: vec![],
    };
    assert_eq!(w.write(&mut s), Ok(5));
    assert_eq!(s.seen.len(), 3);
    assert!(w.take_queue().is_empty());
}

#[test]
fn write_error_stops() {
    let mut w = FramedWriter::new();
    w.queue(vec![7; 2]);
    let mut s = Scripted { answers: vec![StreamWriteOutcome::Error("reset")], seen: vec![] };
    assert_eq!(w.write(&mut s), Err("reset"));
    assert_eq!(s.seen.len(), 1);
    assert!(w.take_queue().is_empty());
}

#[test]
fn queue_buf_advance_across_chunk_from_inside() {
    let chunks = vec![b"ab".to_vec(), b"cde".to_vec()];
    let mut b = QueueBuf::new(&chunks);
    b.advance(1);
    b.advance(2);
    assert_eq!(b.remaining(), 2);
    assert_eq!(b.chunk(), b"de");
}

#[test]
fn queue_buf_advance_across_several_chunks() {
    let chunks = vec![vec![1u8], vec![], vec![2u8, 3], vec![4u8, 5, 6]];
    let mut b = QueueBuf::new(&chunks);
    b.advance(4);
    assert_eq!(b.remaining(), 2);
    assert_eq!(b.chunk(), &[5, 6]);
    b.advance(2);
    assert_eq!(b.remaining(), 0);
}

#[test]
fn queue_buf_skips_used_up_chunks() {
    let chunks = vec![vec![1u8, 2], vec![], vec![3u8]];
    let mut b = QueueBuf::new(&chunks);
    b.advance(2);
    assert_eq!(b.chunk(), &[3]);
}
