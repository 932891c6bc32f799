//! Length-prefixed framing of messages on streams: a writer that queues each
//! message behind its length, a reader that collects received chunks, and a
//! cursor over a queue of chunks.
use vstd::prelude::*;
use quinn_proto::coding::Codec;

verus! {

/// The `n` least significant bytes of `x`, most significant first.
pub open spec fn be_bytes(x: nat, n: nat) -> Seq<u8>
    decreases n,
{
    if n == 0 {
        Seq::empty()
    } else {
        be_bytes(x / 256, (n - 1) as nat).push((x % 256) as u8)
    }
}

/// The length of a QUIC variable-length integer (RFC 9000, section 16).
pub open spec fn quic_varint_len(x: nat) -> nat {
    if x < 64 {
        1
    } else if x < 16384 {
        2
    } else if x < 1073741824 {
        4
    } else {
        8
    }
}

/// The bytes of a QUIC variable-length integer: big-endian, with the two most
/// significant bits holding 0, 1, 2 or 3 for a length of 1, 2, 4 or 8 bytes.
pub open spec fn quic_varint_encoding(x: nat) -> Seq<u8> {
    let n = quic_varint_len(x);
    let tag: nat = if n == 1 {
        0
    } else if n == 2 {
        1
    } else if n == 4 {
        2
    } else {
        3
    };
    be_bytes(x + tag * (pow2_8n(n) / 4), n)
}

/// `2^(8n)`.
pub open spec fn pow2_8n(n: nat) -> nat
    decreases n,
{
    if n == 0 {
        1
    } else {
        256 * pow2_8n((n - 1) as nat)
    }
}

/// Appends `value` as a QUIC variable-length integer with
/// `quinn_proto::VarInt::from_u64` and `<VarInt as Codec>::encode`, which puts
/// 1, 2, 4 or 8 big-endian bytes with the length tag in the top two bits.
/// `from_u64` refuses values of `2^62` and above, and `encode` on a `Vec<u8>`
/// panics when the vector cannot grow by the encoded length; both are left out.
#[verifier::external_body]
fn quic_varint_append(value: u64, buf: &mut Vec<u8>)
    requires
        value < 0x4000_0000_0000_0000u64,
        old(buf)@.len() + quic_varint_len(value as nat) <= isize::MAX,
    ensures
        final(buf)@ == old(buf)@ + quic_varint_encoding(value as nat),
{
    quinn_proto::VarInt::from_u64(value).unwrap().encode(buf)
}

/// What happened when a chunk was written to a stream.
pub enum StreamWriteOutcome<E> {
    /// The whole chunk was written.
    Complete,
    /// Only this many bytes of the chunk were written.
    Partial(usize),
    /// Nothing could be written for now.
    Blocked,
    /// The stream can no longer be written to.
    Error(E),
}

/// The writes made to a stream, oldest first: the bytes given and what the
/// stream reported for them.
pub type WriteHistory<E> = Seq<(Seq<u8>, StreamWriteOutcome<E>)>;

/// A stream that chunks can be written to, implemented by each QUIC backend's
/// send streams. Implementations promise that each write is recorded in the
/// stream's history with its outcome, and that a partial write reports no
/// more bytes than it was given; nothing here checks an implementation.
pub trait StreamWrite {
    type Error;

    /// Every write made to this stream, oldest first: the bytes given and
    /// what the stream reported.
    /// This is a specification: compiled code never calls it.
    spec fn history(&self) -> WriteHistory<Self::Error>;

    /// Writes as much of `bytes` as the stream takes now.
    fn write(&mut self, bytes: &[u8]) -> (r: StreamWriteOutcome<Self::Error>)
        ensures
            final(self).history() == old(self).history().push((bytes@, r)),
            r matches StreamWriteOutcome::Partial(n) ==> n <= bytes@.len(),
    ;
}

/// Whether an outcome ends a framed write: the stream blocked or failed.
pub open spec fn write_stops<E>(o: StreamWriteOutcome<E>) -> bool {
    o is Blocked || o is Error
}

/// The bytes a stream took over `calls`: all of a complete write, the
/// reported count of a partial one, nothing of a blocked or failed one.
pub open spec fn written_by<E>(calls: Seq<(Seq<u8>, StreamWriteOutcome<E>)>) -> nat
    decreases calls.len(),
{
    if calls.len() == 0 {
        0
    } else {
        written_by(calls.drop_last()) + match calls.last().1 {
            StreamWriteOutcome::Complete => calls.last().0.len(),
            StreamWriteOutcome::Partial(n) => n as nat,
            _ => 0,
        }
    }
}

/// The writes a framed write makes for the queued `chunks`: each chunk in
/// order, one write per chunk, going on after complete and partial writes
/// and stopping after the first write that blocks or fails.
pub open spec fn framed_write_calls<E>(
    chunks: Seq<Seq<u8>>,
    calls: Seq<(Seq<u8>, StreamWriteOutcome<E>)>,
) -> bool {
    &&& calls.len() <= chunks.len()
    &&& forall|j: int| 0 <= j < calls.len() ==> #[trigger] calls[j].0 == chunks[j]
    &&& forall|j: int| 0 <= j < calls.len() - 1 ==> !write_stops(#[trigger] calls[j].1)
    &&& calls.len() < chunks.len() ==> calls.len() > 0 && write_stops(calls.last().1)
}

/// What a framed write returns after `calls`: the stream's error if the last
/// write failed, otherwise the bytes the stream took.
pub open spec fn framed_write_result<E>(calls: Seq<(Seq<u8>, StreamWriteOutcome<E>)>) -> Result<
    nat,
    E,
> {
    if calls.len() > 0 && calls.last().1 is Error {
        Err(calls.last().1->Error_0)
    } else {
        Ok(written_by(calls))
    }
}

/// What to do after a chunk's outcome.
pub enum WriteStep<E> {
    /// Go on with the next chunk.
    Continue,
    /// Stop writing and return this result.
    Finish(Result<usize, E>),
}

/// The number of bytes written so far while draining a queue of chunks.
pub struct WriteProgress {
    pub total: usize,
}

impl WriteProgress {
    /// Nothing written yet.
    pub fn new() -> (r: Self)
        ensures
            r.total == 0,
    {
        WriteProgress { total: 0 }
    }

    /// Accounts for the outcome of writing a chunk of `len` bytes: complete and
    /// partial writes add what was written and go on; a blocked stream stops
    /// with the total so far; an error stops with that error.
    pub fn step<E>(&mut self, len: usize, outcome: StreamWriteOutcome<E>) -> (r: WriteStep<E>)
        requires
            old(self).total + len <= usize::MAX,
            outcome matches StreamWriteOutcome::Partial(n) ==> n <= len,
        ensures
            match outcome {
                StreamWriteOutcome::Complete => {
                    &&& final(self).total == old(self).total + len
                    &&& r is Continue
                },
                StreamWriteOutcome::Partial(n) => {
                    &&& final(self).total == old(self).total + n
                    &&& r is Continue
                },
                StreamWriteOutcome::Blocked => {
                    &&& final(self).total == old(self).total
                    &&& r matches WriteStep::Finish(Ok(t))
                    &&& t == old(self).total
                },
                StreamWriteOutcome::Error(e) => {
                    &&& final(self).total == old(self).total
                    &&& r matches WriteStep::Finish(Err(x))
                    &&& x == e
                },
            },
    {
        match outcome {
            StreamWriteOutcome::Complete => {
                self.total = self.total + len;
                WriteStep::Continue
            },
            StreamWriteOutcome::Partial(written) => {
                self.total = self.total + written;
                WriteStep::Continue
            },
            StreamWriteOutcome::Blocked => WriteStep::Finish(Ok(self.total)),
            StreamWriteOutcome::Error(err) => WriteStep::Finish(Err(err)),
        }
    }
}

/// The sum of the lengths of some chunks.
pub open spec fn chunks_len(chunks: Seq<Vec<u8>>) -> nat
    decreases chunks.len(),
{
    if chunks.len() == 0 {
        0
    } else {
        chunks_len(chunks.drop_last()) + chunks.last()@.len()
    }
}

/// Queues messages for a stream, each behind a header holding its length.
pub struct FramedWriter {
    queue: Vec<Vec<u8>>,
}

impl FramedWriter {
    /// The queued chunks, oldest first.
    pub closed spec fn chunks(&self) -> Seq<Seq<u8>> {
        self.queue@.map_values(|c: Vec<u8>| c@)
    }

    /// The total length of the queued chunks.
    pub closed spec fn queued_len(&self) -> nat {
        chunks_len(self.queue@)
    }

    /// An empty writer.
    pub fn new() -> (r: Self)
        ensures
            r.chunks() == Seq::<Seq<u8>>::empty(),
            r.queued_len() == 0,
    {
        let r = FramedWriter { queue: Vec::new() };
        assert(r.chunks() =~= Seq::<Seq<u8>>::empty());
        r
    }

    /// Queues `message` behind a header holding its length.
    pub fn queue(&mut self, message: Vec<u8>)
        requires
            message@.len() < 0x4000_0000_0000_0000u64,
        ensures
            final(self).chunks() == old(self).chunks().push(
                quic_varint_encoding(message@.len() as nat),
            ).push(message@),
            final(self).queued_len() == old(self).queued_len() + quic_varint_len(
                message@.len() as nat,
            ) + message@.len(),
    {
        let mut buf: Vec<u8> = Vec::with_capacity(4);
        quic_varint_append(message.len() as u64, &mut buf);
        let ghost q0 = self.queue@;
        let ghost m = message@;
        proof {
            lemma_be_bytes_len(message@.len() as nat);
        }
        self.queue.push(buf);
        self.queue.push(message);
        assert(self.queue@.drop_last() =~= q0.push(buf));
        assert(self.queue@.drop_last().drop_last() =~= q0);
        assert(chunks_len(self.queue@) == chunks_len(self.queue@.drop_last()) + m.len());
        assert(chunks_len(self.queue@.drop_last()) == chunks_len(q0) + quic_varint_len(
            m.len() as nat,
        ));
        assert(self.chunks() =~= old(self).chunks().push(
            quic_varint_encoding(m.len() as nat),
        ).push(m));
    }

    /// Writes the queued chunks to `stream`, oldest first, until the stream
    /// blocks or fails, and returns the number of bytes it took, or the
    /// stream's error. Complete and partial writes go on with the next chunk.
    /// The queue is emptied in every case, what was not written included.
    pub fn write<S: StreamWrite>(&mut self, stream: &mut S) -> (r: Result<usize, S::Error>)
        requires
            old(self).queued_len() <= usize::MAX,
        ensures
            final(self).chunks() == Seq::<Seq<u8>>::empty(),
            final(self).queued_len() == 0,
            final(stream).history().len() >= old(stream).history().len(),
            final(stream).history().take(old(stream).history().len() as int) == old(
                stream,
            ).history(),
            framed_write_calls(
                old(self).chunks(),
                final(stream).history().skip(old(stream).history().len() as int),
            ),
            match r {
                Ok(total) => framed_write_result(
                    final(stream).history().skip(old(stream).history().len() as int),
                ) == Ok::<nat, S::Error>(total as nat),
                Err(e) => framed_write_result(
                    final(stream).history().skip(old(stream).history().len() as int),
                ) == Err::<nat, S::Error>(e),
            },
            old(self).chunks().len() == 0 ==> r == Ok::<usize, S::Error>(0),
            r matches Ok(total) ==> total <= old(self).queued_len(),
    {
        let ghost h0 = stream.history();
        let ghost q = old(self).chunks();
        let chunks = self.take_queue();
        let ghost all = chunks@;
        let mut progress = WriteProgress::new();
        let n = chunks.len();
        let mut i: usize = 0;
        while i < n
            invariant
                0 <= i <= n,
                n == chunks@.len(),
                all == chunks@,
                chunks_len(all) == old(self).queued_len(),
                chunks_len(all) <= usize::MAX,
                progress.total <= chunks_len(all.take(i as int)),
                self.chunks() == Seq::<Seq<u8>>::empty(),
                self.queued_len() == 0,
                q == all.map_values(|c: Vec<u8>| c@),
                q == old(self).chunks(),
                q.len() == n,
                h0 == old(stream).history(),
                stream.history().len() == h0.len() + i,
                stream.history().take(h0.len() as int) == h0,
                forall|j: int|
                    0 <= j < i ==> #[trigger] stream.history().skip(h0.len() as int)[j].0
                        == q[j],
                forall|j: int|
                    0 <= j < i ==> !write_stops(
                        #[trigger] stream.history().skip(h0.len() as int)[j].1,
                    ),
                progress.total == written_by(stream.history().skip(h0.len() as int)),
            decreases n - i,
        {
            proof {
                assert(all.take(i + 1).drop_last() =~= all.take(i as int));
                lemma_chunks_len_prefix(all, i + 1);
            }
            let chunk = &chunks[i];
            let ghost before = stream.history();
            let outcome = stream.write(chunk.as_slice());
            let ghost calls = stream.history().skip(h0.len() as int);
            proof {
                assert(calls.drop_last() =~= before.skip(h0.len() as int));
                assert(stream.history().take(h0.len() as int) =~= h0);
                assert(calls.last().0 == q[i as int]);
                assert forall|j: int| 0 <= j < i + 1 implies #[trigger] calls[j].0 == q[j] by {
                    if j < i {
                        assert(calls[j] == calls.drop_last()[j]);
                    }
                }
                assert forall|j: int| 0 <= j < i implies !write_stops(#[trigger] calls[j].1) by {
                    assert(calls[j] == calls.drop_last()[j]);
                }
            }
            match progress.step(chunk.len(), outcome) {
                WriteStep::Continue => {},
                WriteStep::Finish(result) => {
                    proof {
                        lemma_chunks_len_prefix(all, i as int);
                    }
                    return result;
                },
            }
            i = i + 1;
        }
        assert(all.take(n as int) =~= all);
        Ok(progress.total)
    }

    /// Removes and returns every queued chunk, oldest first.
    pub fn take_queue(&mut self) -> (r: Vec<Vec<u8>>)
        ensures
            r@.map_values(|c: Vec<u8>| c@) == old(self).chunks(),
            chunks_len(r@) == old(self).queued_len(),
            final(self).chunks() == Seq::<Seq<u8>>::empty(),
            final(self).queued_len() == 0,
    {
        let mut r: Vec<Vec<u8>> = Vec::new();
        std::mem::swap(&mut r, &mut self.queue);
        assert(self.chunks() =~= Seq::<Seq<u8>>::empty());
        r
    }
}

/// `be_bytes` produces exactly `n` bytes; in particular an encoded QUIC
/// variable-length integer is as long as `quic_varint_len` says.
pub proof fn lemma_be_bytes_len(x: nat)
    ensures
        quic_varint_encoding(x).len() == quic_varint_len(x),
{
    let n = quic_varint_len(x);
    lemma_be_len(x, n);
    let tag: nat = if n == 1 {
        0
    } else if n == 2 {
        1
    } else if n == 4 {
        2
    } else {
        3
    };
    lemma_be_len(x + tag * (pow2_8n(n) / 4), n);
}

proof fn lemma_be_len(x: nat, n: nat)
    ensures
        be_bytes(x, n).len() == n,
    decreases n,
{
    if n > 0 {
        lemma_be_len(x / 256, (n - 1) as nat);
    }
}

/// Collects chunks received from a stream.
pub struct FramedReader {
    queue: Vec<Vec<u8>>,
}

impl FramedReader {
    /// The received chunks, oldest first.
    pub closed spec fn chunks(&self) -> Seq<Seq<u8>> {
        self.queue@.map_values(|c: Vec<u8>| c@)
    }

    /// A reader with nothing received.
    pub fn new() -> (r: Self)
        ensures
            r.chunks() == Seq::<Seq<u8>>::empty(),
    {
        let r = FramedReader { queue: Vec::new() };
        assert(r.chunks() =~= Seq::<Seq<u8>>::empty());
        r
    }

    /// Adds a received chunk.
    pub fn recv(&mut self, chunk: Vec<u8>)
        ensures
            final(self).chunks() == old(self).chunks().push(chunk@),
    {
        let ghost c = chunk@;
        self.queue.push(chunk);
        assert(self.chunks() =~= old(self).chunks().push(c));
    }
}

/// A read cursor over a queue of chunks.
pub struct QueueBuf<'a> {
    remaining: usize,
    cursor: usize,
    index: usize,
    inner: &'a [Vec<u8>],
}

/// The bytes of some chunks, one after another.
pub open spec fn chunks_flat(chunks: Seq<Vec<u8>>) -> Seq<u8>
    decreases chunks.len(),
{
    if chunks.len() == 0 {
        Seq::empty()
    } else {
        chunks_flat(chunks.drop_last()) + chunks.last()@
    }
}

impl<'a> QueueBuf<'a> {
    /// The number of bytes left to read.
    pub closed spec fn spec_remaining(&self) -> nat {
        self.remaining as nat
    }

    /// The position within the current chunk.
    pub closed spec fn spec_cursor(&self) -> nat {
        self.cursor as nat
    }

    /// The index of the current chunk.
    pub closed spec fn spec_index(&self) -> nat {
        self.index as nat
    }

    /// The chunks being read.
    pub closed spec fn spec_inner(&self) -> Seq<Vec<u8>> {
        self.inner@
    }

    /// The number of bytes already read: those of the chunks before the
    /// current one, and those of the current one before the cursor.
    pub open spec fn spec_consumed(&self) -> nat {
        chunks_len(self.spec_inner().take(self.spec_index() as int)) + self.spec_cursor()
    }

    /// The cursor stands within a chunk, or at the very end with nothing
    /// left, and the remaining count is what follows the cursor.
    pub open spec fn wf(&self) -> bool {
        &&& self.spec_index() <= self.spec_inner().len()
        &&& self.spec_index() < self.spec_inner().len() ==> self.spec_cursor()
            <= self.spec_inner()[self.spec_index() as int]@.len()
        &&& self.spec_index() == self.spec_inner().len() ==> self.spec_cursor() == 0
        &&& self.spec_consumed() + self.spec_remaining() == chunks_len(self.spec_inner())
    }

    /// A cursor at the start of the first chunk, with every byte of every chunk remaining.
    pub fn new(inner: &'a [Vec<u8>]) -> (r: QueueBuf<'a>)
        requires
            chunks_len(inner@) <= usize::MAX,
        ensures
            r.wf(),
            r.spec_remaining() == chunks_len(inner@),
            r.spec_consumed() == 0,
            r.spec_cursor() == 0,
            r.spec_index() == 0,
            r.spec_inner() == inner@,
    {
        let n = inner.len();
        let mut total: usize = 0;
        let mut i: usize = 0;
        while i < n
            invariant
                0 <= i <= n,
                n == inner@.len(),
                chunks_len(inner@) <= usize::MAX,
                total == chunks_len(inner@.take(i as int)),
            decreases n - i,
        {
            proof {
                assert(inner@.take(i + 1).drop_last() =~= inner@.take(i as int));
                lemma_chunks_len_prefix(inner@, i + 1);
            }
            total = total + inner[i].len();
            i = i + 1;
        }
        assert(inner@.take(n as int) =~= inner@);
        assert(inner@.take(0) =~= Seq::<Vec<u8>>::empty());
        QueueBuf { remaining: total, cursor: 0, index: 0, inner }
    }

    /// The number of bytes left to read.
    pub fn remaining(&self) -> (r: usize)
        ensures
            r == self.spec_remaining(),
    {
        self.remaining
    }

    /// The unread part of the current chunk: the bytes of all the chunks
    /// together, from the number already read on, up to the current chunk's end.
    pub fn chunk(&self) -> (r: &'a [u8])
        requires
            self.wf(),
            self.spec_index() < self.spec_inner().len(),
        ensures
            r@ == self.spec_inner()[self.spec_index() as int]@.skip(self.spec_cursor() as int),
            r@ == chunks_flat(self.spec_inner()).subrange(
                self.spec_consumed() as int,
                (self.spec_consumed() + r@.len()) as int,
            ),
    {
        let c: &'a Vec<u8> = &self.inner[self.index];
        let s: &'a [u8] = c.as_slice();
        let r = &s[self.cursor..s.len()];
        proof {
            let k = self.index as int;
            let inner = self.inner@;
            let p = chunks_len(inner.take(k));
            let c = self.cursor as int;
            lemma_chunk_in_flat(inner, k);
            lemma_flat_len(inner);
            lemma_chunks_len_prefix(inner, k + 1);
            assert(inner.take(k + 1).drop_last() =~= inner.take(k));
            assert(r@ =~= inner[k]@.skip(c));
            assert forall|j: int| 0 <= j < r@.len() implies r@[j] == chunks_flat(inner)[p + c
                + j] by {
                assert(chunks_flat(inner).subrange(p as int, (p + inner[k]@.len()) as int)[c + j]
                    == inner[k]@[c + j]);
            }
            assert(r@ =~= chunks_flat(inner).subrange(
                self.spec_consumed() as int,
                (self.spec_consumed() + r@.len()) as int,
            ));
        }
        r
    }

    /// Moves the cursor `cnt` bytes on, across as many chunks as it takes:
    /// afterwards `cnt` more bytes have been read and `cnt` fewer remain.
    /// A cursor left at the end of a chunk moves on to the next chunk that
    /// has bytes, so the current chunk is never used up while bytes remain.
    pub fn advance(&mut self, cnt: usize)
        requires
            old(self).wf(),
            cnt <= old(self).spec_remaining(),
        ensures
            final(self).wf(),
            final(self).spec_inner() == old(self).spec_inner(),
            final(self).spec_remaining() == old(self).spec_remaining() - cnt,
            final(self).spec_consumed() == old(self).spec_consumed() + cnt,
            ({
                let f = *final(self);
                f.spec_index() < f.spec_inner().len() ==> f.spec_cursor() < f.spec_inner()[f.spec_index() as int]@.len()
            }),
    {
        self.remaining = self.remaining - cnt;
        let ghost start = old(self).spec_consumed();
        let mut left = cnt;
        while left > 0
            invariant
                self.inner@ == old(self).inner@,
                self.remaining == old(self).remaining - cnt,
                left <= cnt,
                self.index <= self.inner@.len(),
                self.index < self.inner@.len() ==> self.cursor <= self.inner@[self.index as int]@.len(),
                self.index == self.inner@.len() ==> self.cursor == 0,
                self.spec_consumed() + left == start + cnt,
                start + cnt + self.remaining == chunks_len(self.inner@),
            decreases left, self.inner@.len() - self.index,
        {
            proof {
                if self.index == self.inner@.len() {
                    assert(self.inner@.take(self.index as int) =~= self.inner@);
                }
            }
            let len = self.inner[self.index].len();
            let avail = len - self.cursor;
            proof {
                assert(self.inner@.take(self.index + 1).drop_last() =~= self.inner@.take(
                    self.index as int,
                ));
            }
            if left < avail {
                self.cursor = self.cursor + left;
                left = 0;
            } else {
                left = left - avail;
                self.index = self.index + 1;
                self.cursor = 0;
            }
        }
        let n = self.inner.len();
        while self.index < n && self.cursor == self.inner[self.index].len()
            invariant
                n == self.inner@.len(),
                self.inner@ == old(self).inner@,
                self.remaining == old(self).remaining - cnt,
                self.index <= n,
                self.index < n ==> self.cursor <= self.inner@[self.index as int]@.len(),
                self.index == n ==> self.cursor == 0,
                self.spec_consumed() == start + cnt,
                start + cnt + self.remaining == chunks_len(self.inner@),
            decreases n - self.index,
        {
            proof {
                assert(self.inner@.take(self.index + 1).drop_last() =~= self.inner@.take(
                    self.index as int,
                ));
            }
            self.index = self.index + 1;
            self.cursor = 0;
        }
    }
}

/// Chunk `k` stands in the bytes of all the chunks right after the chunks before it.
proof fn lemma_chunk_in_flat(chunks: Seq<Vec<u8>>, k: int)
    requires
        0 <= k < chunks.len(),
    ensures
        chunks_flat(chunks).subrange(
            chunks_len(chunks.take(k)) as int,
            (chunks_len(chunks.take(k)) + chunks[k]@.len()) as int,
        ) == chunks[k]@,
    decreases chunks.len(),
{
    lemma_flat_len(chunks.drop_last());
    if k == chunks.len() - 1 {
        assert(chunks.take(k) =~= chunks.drop_last());
        assert(chunks_flat(chunks).subrange(
            chunks_len(chunks.take(k)) as int,
            (chunks_len(chunks.take(k)) + chunks[k]@.len()) as int,
        ) =~= chunks[k]@);
    } else {
        lemma_chunk_in_flat(chunks.drop_last(), k);
        assert(chunks.drop_last().take(k) =~= chunks.take(k));
        lemma_chunks_len_prefix(chunks.drop_last(), k + 1);
        assert(chunks.drop_last().take(k + 1).drop_last() =~= chunks.drop_last().take(k));
        assert(chunks_len(chunks.drop_last().take(k + 1)) == chunks_len(chunks.take(k))
            + chunks[k]@.len());
        assert(chunks_flat(chunks).subrange(
            chunks_len(chunks.take(k)) as int,
            (chunks_len(chunks.take(k)) + chunks[k]@.len()) as int,
        ) =~= chunks_flat(chunks.drop_last()).subrange(
            chunks_len(chunks.take(k)) as int,
            (chunks_len(chunks.take(k)) + chunks[k]@.len()) as int,
        ));
    }
}

/// The bytes of some chunks are as many as their lengths add up to.
proof fn lemma_flat_len(chunks: Seq<Vec<u8>>)
    ensures
        chunks_flat(chunks).len() == chunks_len(chunks),
    decreases chunks.len(),
{
    if chunks.len() > 0 {
        lemma_flat_len(chunks.drop_last());
    }
}

proof fn lemma_chunks_len_prefix(chunks: Seq<Vec<u8>>, k: int)
    requires
        0 <= k <= chunks.len(),
    ensures
        chunks_len(chunks.take(k)) <= chunks_len(chunks),
    decreases chunks.len(),
{
    if k < chunks.len() {
        assert(chunks.drop_last().take(k) =~= chunks.take(k));
        lemma_chunks_len_prefix(chunks.drop_last(), k);
    } else {
        assert(chunks.take(k) =~= chunks);
    }
}

} // verus!
