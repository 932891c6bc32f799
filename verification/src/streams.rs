//! The decisions around writing to and reading from QUIC streams: how the
//! results of the QUIC library's stream calls become stream outcomes.
use vstd::prelude::*;

verus! {

/// An error reported by a stream call of the QUIC library.
pub enum StreamError<E> {
    /// Nothing could be done for now.
    Done,
    /// The peer asked to stop the stream, with this code.
    StreamStopped(u64),
    /// The peer reset the stream, with this code.
    StreamReset(u64),
    /// Any other error.
    Other(E),
}

/// The result of sending a buffer on a stream.
pub enum StreamSendOutcome<E> {
    /// Everything was sent.
    Complete,
    /// Only this many bytes were sent.
    Partial(usize),
    /// Nothing more can be sent for now.
    Blocked,
    /// The stream was stopped or reset by the peer.
    Stopped,
    /// The stream failed.
    Error(E),
}

/// What to do after a send call.
pub enum SendStep<E> {
    /// Send the rest of the buffer.
    Continue,
    /// Stop and report this outcome.
    Finish(StreamSendOutcome<E>),
}

/// Progress of sending a buffer of `total` bytes on a stream.
pub struct SendProgress {
    pub total: usize,
    pub written: usize,
}

impl SendProgress {
    /// Nothing of `total` bytes sent yet.
    pub fn new(total: usize) -> (r: Self)
        ensures
            r.total == total,
            r.written == 0,
    {
        SendProgress { total, written: 0 }
    }

    /// Whether to make another send call, with `remaining` bytes left in the buffer.
    pub fn keep_sending(&self, remaining: usize) -> (r: bool)
        ensures
            r == (remaining > 0 && self.written <= self.total),
    {
        remaining > 0 && self.written <= self.total
    }

    /// Accounts for the result of a send call: bytes sent are added and
    /// sending goes on; otherwise sending stops, blocked on `Done`, stopped on
    /// a stop or reset from the peer, failed on any other error.
    pub fn step<E>(&mut self, result: Result<usize, StreamError<E>>) -> (r: SendStep<E>)
        requires
            result matches Ok(n) ==> old(self).written + n <= usize::MAX,
        ensures
            match result {
                Ok(n) => {
                    &&& final(self).written == old(self).written + n
                    &&& final(self).total == old(self).total
                    &&& r is Continue
                },
                Err(StreamError::Done) => {
                    &&& *final(self) == *old(self)
                    &&& r matches SendStep::Finish(StreamSendOutcome::Blocked)
                },
                Err(StreamError::StreamStopped(_)) => {
                    &&& *final(self) == *old(self)
                    &&& r matches SendStep::Finish(StreamSendOutcome::Stopped)
                },
                Err(StreamError::StreamReset(_)) => {
                    &&& *final(self) == *old(self)
                    &&& r matches SendStep::Finish(StreamSendOutcome::Stopped)
                },
                Err(StreamError::Other(e)) => {
                    &&& *final(self) == *old(self)
                    &&& r matches SendStep::Finish(StreamSendOutcome::Error(x))
                    &&& x == e
                },
            },
    {
        match result {
            Ok(amt) => {
                self.written = self.written + amt;
                SendStep::Continue
            },
            Err(StreamError::Done) => SendStep::Finish(StreamSendOutcome::Blocked),
            Err(StreamError::StreamStopped(_)) => SendStep::Finish(StreamSendOutcome::Stopped),
            Err(StreamError::StreamReset(_)) => SendStep::Finish(StreamSendOutcome::Stopped),
            Err(StreamError::Other(error)) => SendStep::Finish(StreamSendOutcome::Error(error)),
        }
    }

    /// The outcome once sending has stopped without an early result:
    /// complete if everything was sent, partial otherwise.
    pub fn finish<E>(&self) -> (r: StreamSendOutcome<E>)
        ensures
            self.total == self.written ==> r is Complete,
            self.total != self.written ==> (r matches StreamSendOutcome::Partial(n) && n
                == self.written),
    {
        if self.total == self.written {
            StreamSendOutcome::Complete
        } else {
            StreamSendOutcome::Partial(self.written)
        }
    }
}

/// The result of reading from a stream.
pub enum StreamRecvOutcome<E> {
    /// These bytes were read.
    Chunk(Vec<u8>),
    /// Nothing can be read for now.
    Blocked,
    /// The stream failed.
    Error(E),
}

/// The outcome of a read: for a stream that is not readable, blocked without
/// a read; otherwise the first `len` bytes of `scratch` when the read gave
/// `len`, blocked on `Done`, and any other error as a failure.
pub fn recv_outcome<E>(
    readable: bool,
    scratch: &[u8],
    result: Result<(usize, bool), StreamError<E>>,
) -> (r: StreamRecvOutcome<StreamError<E>>)
    requires
        readable ==> (result matches Ok((len, _)) ==> len <= scratch@.len()),
    ensures
        !readable ==> r is Blocked,
        readable ==> match result {
            Ok((len, _)) => (r matches StreamRecvOutcome::Chunk(c) && c@ == scratch@.take(
                len as int,
            )),
            Err(StreamError::Done) => r is Blocked,
            Err(e) => (r matches StreamRecvOutcome::Error(x) && x == e),
        },
{
    if !readable {
        return StreamRecvOutcome::Blocked;
    }
    match result {
        Ok((len, _fin)) => {
            let chunk = vstd::slice::slice_to_vec(&scratch[0..len]);
            StreamRecvOutcome::Chunk(chunk)
        },
        Err(StreamError::Done) => StreamRecvOutcome::Blocked,
        Err(error) => StreamRecvOutcome::Error(error),
    }
}

/// The result of trying to write a chunk to a stream.
pub enum StreamTryWriteOutcome<E> {
    /// The whole chunk was written.
    Complete,
    /// Only this many bytes were written.
    Partial(usize),
    /// Nothing could be written for now.
    Blocked,
    /// The stream failed.
    Error(E),
}

/// The outcome of writing a chunk of `len` bytes.
pub open spec fn try_write_result<E>(len: usize, result: Result<usize, StreamError<E>>) -> StreamTryWriteOutcome<StreamError<E>> {
    match result {
        Ok(w) => if w == len {
            StreamTryWriteOutcome::Complete
        } else {
            StreamTryWriteOutcome::Partial(w)
        },
        Err(StreamError::Done) => StreamTryWriteOutcome::Blocked,
        Err(e) => StreamTryWriteOutcome::Error(e),
    }
}

/// The outcome of writing a chunk of `len` bytes: complete if the stream took
/// all of it, partial if it took less, blocked on `Done`, failed on any other error.
pub fn try_write_outcome<E>(len: usize, result: Result<usize, StreamError<E>>) -> (r:
    StreamTryWriteOutcome<StreamError<E>>)
    ensures
        r == try_write_result(len, result),
{
    match result {
        Ok(written) => if written == len {
            StreamTryWriteOutcome::Complete
        } else {
            StreamTryWriteOutcome::Partial(written)
        },
        Err(StreamError::Done) => StreamTryWriteOutcome::Blocked,
        Err(err) => StreamTryWriteOutcome::Error(err),
    }
}

/// A stream of a QUIC connection that can be written to.
pub struct QuicheSendStream<'a, Conn> {
    pub id: u64,
    pub connection: &'a mut Conn,
}

impl<'a, Conn> QuicheSendStream<'a, Conn> {
    /// The outcome of writing a chunk of `len` bytes to this stream, given
    /// what the connection's stream call returned.
    pub fn try_write_stream<E>(&self, len: usize, result: Result<usize, StreamError<E>>) -> (r:
        StreamTryWriteOutcome<StreamError<E>>)
        ensures
            r == try_write_result(len, result),
    {
        try_write_outcome(len, result)
    }
}


/// A write attempt is blocked exactly when the stream call answered `Done`;
/// any other error, a stop or reset by the peer included, is reported as
/// that same error; a call that took all `len` bytes is complete, and one
/// that took fewer is partial with the count it took.
pub proof fn lemma_try_write_outcome_meaning<E>(len: usize, result: Result<usize, StreamError<E>>)
    ensures
        try_write_result(len, result) is Blocked <==> (result is Err && result->Err_0 is Done),
        result is Err && !(result->Err_0 is Done) ==> try_write_result(len, result)
            == StreamTryWriteOutcome::<StreamError<E>>::Error(result->Err_0),
        result is Ok && result->Ok_0 == len ==> try_write_result(len, result) is Complete,
        result is Ok && result->Ok_0 != len ==> try_write_result(len, result)
            == StreamTryWriteOutcome::<StreamError<E>>::Partial(result->Ok_0),
{
}

} // verus!
