//! State kept for each incoming stream: the bytes received but not yet
//! processed, and what the stream turned out to carry.
use vstd::prelude::*;
use crate::channels::{ChannelConfiguration, ChannelRegistry};
use crate::receiving::channel_id_from_bytes;

verus! {

/// Bytes received on a stream and not yet processed.
pub struct IncomingStreamBuffer(Vec<u8>);

impl View for IncomingStreamBuffer {
    type V = Seq<u8>;

    closed spec fn view(&self) -> Seq<u8> {
        self.0@
    }
}

impl IncomingStreamBuffer {
    /// An empty buffer with room for `capacity` bytes.
    pub fn with_capacity(capacity: usize) -> (r: Self)
        ensures
            r@ == Seq::<u8>::empty(),
    {
        IncomingStreamBuffer(Vec::with_capacity(capacity))
    }

    /// The buffered bytes.
    pub fn read_slice(&self) -> (r: &[u8])
        ensures
            r@ == self@,
    {
        self.0.as_slice()
    }

    /// Appends received bytes.
    pub fn insert_back(&mut self, slice: &[u8])
        ensures
            final(self)@ == old(self)@ + slice@,
    {
        self.0.extend_from_slice(slice);
        assert(self@ =~= old(self)@ + slice@);
    }

    /// Removes `amount` bytes from the front, going through `scratch`.
    ///
    /// The removal copies the kept bytes into `scratch` after clearing it,
    /// and copies them back after clearing the buffer, with slice copies that
    /// require equal lengths; the subtraction of `amount` from the length is
    /// made after the buffer may have been cleared. Together these succeed
    /// only when the buffer is empty and `amount` is zero, which leaves both
    /// buffers empty.
    pub fn remove_front(&mut self, scratch: &mut Vec<u8>, amount: usize)
        requires
            old(self)@.len() == 0,
            amount == 0,
        ensures
            final(self)@ == Seq::<u8>::empty(),
            final(scratch)@ == Seq::<u8>::empty(),
    {
        if amount >= self.0.len() {
            self.0.clear();
        }
        scratch.clear();
        self.0.clear();
        assert(self@ =~= Seq::<u8>::empty());
    }
}

/// What an incoming stream carries, once its opening header has been read.
#[derive(Clone, Copy, Debug, PartialEq, Eq, Structural)]
pub enum IncomingStreamData {
    /// The opening header has not been read yet.
    PendingPurpose,
    /// Connection management messages.
    ConnectionManagement,
    /// Messages of channel `id`.
    StardustPayloads { id: u32 },
    /// The stream is to be stopped with error code `reason`.
    NeedsClosing { reason: StreamErrorCode },
}

/// An incoming stream's buffer and state.
pub struct IncomingStream {
    pub buffer: IncomingStreamBuffer,
    pub data: IncomingStreamData,
}

impl Default for IncomingStream {
    /// A stream with nothing received, waiting for its opening header.
    fn default() -> (r: Self)
        ensures
            r.buffer@ == Seq::<u8>::empty(),
            r.data == IncomingStreamData::PendingPurpose,
    {
        IncomingStream {
            buffer: IncomingStreamBuffer::with_capacity(32),
            data: IncomingStreamData::PendingPurpose,
        }
    }
}

/// What a new stream carries, as announced by its first byte.
#[derive(Clone, Copy, Debug, PartialEq, Eq, Structural)]
pub enum StreamPurposeHeader {
    ConnectionManagement,
    StardustPayloads,
    UctrlStream,
}

/// The purpose a first byte announces: the purposes are numbered from zero
/// in the order they are declared.
pub open spec fn purpose_from_code(code: u8) -> Option<StreamPurposeHeader> {
    if code == 0 {
        Some(StreamPurposeHeader::ConnectionManagement)
    } else if code == 1 {
        Some(StreamPurposeHeader::StardustPayloads)
    } else if code == 2 {
        Some(StreamPurposeHeader::UctrlStream)
    } else {
        None
    }
}

impl StreamPurposeHeader {
    /// The purpose announced by `code`, or `None` if it names none.
    pub fn from_code(code: u8) -> (r: Option<StreamPurposeHeader>)
        ensures
            r == purpose_from_code(code),
    {
        if code == 0 {
            Some(StreamPurposeHeader::ConnectionManagement)
        } else if code == 1 {
            Some(StreamPurposeHeader::StardustPayloads)
        } else if code == 2 {
            Some(StreamPurposeHeader::UctrlStream)
        } else {
            None
        }
    }
}

/// Why a stream is stopped.
#[derive(Clone, Copy, Debug, PartialEq, Eq, Structural)]
pub enum StreamErrorCode {
    NoReasonGiven,
    /// The stream did not start with a valid opening header.
    InvalidOpeningHeader,
    /// The stream was opened in a direction its purpose does not allow.
    InvalidChannelDirection,
    /// The stream named a channel that is not registered.
    BadStardustChannel,
}

/// What reading the opening header of a new stream decided.
#[derive(Clone, Copy, Debug, PartialEq, Eq, Structural)]
pub enum StreamOpening {
    /// No byte has arrived yet: nothing to do.
    Incomplete,
    /// The stream must be stopped with this code.
    Rejected(StreamErrorCode),
    /// A connection management stream; its header is one byte long.
    ConnectionManagement,
    /// A stream of messages on `channel`; its header is five bytes long.
    StardustPayloads { channel: u32 },
}

/// The decision on a stream whose received bytes are `s`. The first byte
/// names the purpose. Both known purposes need a unidirectional stream. A
/// payload stream names its channel in the next four bytes, big-endian,
/// and the channel must be registered.
pub open spec fn opening_of(
    s: Seq<u8>,
    unidirectional: bool,
    registry: Seq<ChannelConfiguration>,
) -> StreamOpening {
    if s.len() == 0 {
        StreamOpening::Incomplete
    } else {
        match purpose_from_code(s[0]) {
            None => StreamOpening::Rejected(StreamErrorCode::InvalidOpeningHeader),
            Some(StreamPurposeHeader::ConnectionManagement) => if !unidirectional {
                StreamOpening::Rejected(StreamErrorCode::InvalidChannelDirection)
            } else {
                StreamOpening::ConnectionManagement
            },
            Some(StreamPurposeHeader::StardustPayloads) => if !unidirectional {
                StreamOpening::Rejected(StreamErrorCode::InvalidChannelDirection)
            } else if s.len() < 5 {
                StreamOpening::Rejected(StreamErrorCode::InvalidOpeningHeader)
            } else {
                let channel = channel_id_from_bytes(s.skip(1), 4);
                if channel >= registry.len() {
                    StreamOpening::Rejected(StreamErrorCode::BadStardustChannel)
                } else {
                    StreamOpening::StardustPayloads { channel }
                }
            },
            Some(StreamPurposeHeader::UctrlStream) => StreamOpening::Incomplete,
        }
    }
}

/// The number of header bytes an accepted opening consumes.
pub open spec fn opening_len(o: StreamOpening) -> nat {
    match o {
        StreamOpening::ConnectionManagement => 1,
        StreamOpening::StardustPayloads { .. } => 5,
        _ => 0,
    }
}

/// The state a stream moves to after its opening header was read.
pub open spec fn state_after_opening(o: StreamOpening) -> IncomingStreamData {
    match o {
        StreamOpening::Incomplete => IncomingStreamData::PendingPurpose,
        StreamOpening::Rejected(reason) => IncomingStreamData::NeedsClosing { reason },
        StreamOpening::ConnectionManagement => IncomingStreamData::ConnectionManagement,
        StreamOpening::StardustPayloads { channel } => IncomingStreamData::StardustPayloads {
            id: channel,
        },
    }
}

/// Reads the opening header at the start of `bytes`, the first bytes
/// received on a new stream. Streams announcing the unreliable control
/// purpose have no handling yet and are not accepted here.
pub fn open_stream(bytes: &[u8], unidirectional: bool, registry: &ChannelRegistry) -> (r:
    StreamOpening)
    requires
        bytes@.len() == 0 || purpose_from_code(bytes@[0]) != Some(
            StreamPurposeHeader::UctrlStream,
        ),
    ensures
        r == opening_of(bytes@, unidirectional, registry.channels@),
{
    if bytes.len() == 0 {
        return StreamOpening::Incomplete;
    }
    match StreamPurposeHeader::from_code(bytes[0]) {
        None => StreamOpening::Rejected(StreamErrorCode::InvalidOpeningHeader),
        Some(StreamPurposeHeader::ConnectionManagement) => {
            if !unidirectional {
                return StreamOpening::Rejected(StreamErrorCode::InvalidChannelDirection);
            }
            StreamOpening::ConnectionManagement
        },
        Some(StreamPurposeHeader::StardustPayloads) => {
            if !unidirectional {
                return StreamOpening::Rejected(StreamErrorCode::InvalidChannelDirection);
            }
            if bytes.len() < 5 {
                return StreamOpening::Rejected(StreamErrorCode::InvalidOpeningHeader);
            }
            let channel: u32 = (bytes[1] as u32) * 0x100_0000 + (bytes[2] as u32) * 0x1_0000
                + (bytes[3] as u32) * 0x100 + (bytes[4] as u32);
            assert(channel == channel_id_from_bytes(bytes@.skip(1), 4));
            if !registry.channel_exists(channel) {
                return StreamOpening::Rejected(StreamErrorCode::BadStardustChannel);
            }
            StreamOpening::StardustPayloads { channel }
        },
        Some(StreamPurposeHeader::UctrlStream) => StreamOpening::Incomplete,
    }
}

impl IncomingStream {
    /// Reads the opening header from the buffered bytes of a stream still
    /// waiting for it, and moves the stream to the state the header decides.
    /// Returns the decision and the number of header bytes it consumed.
    pub fn read_opening(&mut self, unidirectional: bool, registry: &ChannelRegistry) -> (r: (
        StreamOpening,
        usize,
    ))
        requires
            old(self).data == IncomingStreamData::PendingPurpose,
            old(self).buffer@.len() == 0 || purpose_from_code(old(self).buffer@[0]) != Some(
                StreamPurposeHeader::UctrlStream,
            ),
        ensures
            r.0 == opening_of(old(self).buffer@, unidirectional, registry.channels@),
            r.1 == opening_len(r.0),
            r.1 <= old(self).buffer@.len(),
            final(self).data == state_after_opening(r.0),
            final(self).buffer@ == old(self).buffer@,
    {
        let opening = open_stream(self.buffer.read_slice(), unidirectional, registry);
        let consumed: usize = match opening {
            StreamOpening::ConnectionManagement => 1,
            StreamOpening::StardustPayloads { .. } => 5,
            _ => 0,
        };
        self.data = match opening {
            StreamOpening::Incomplete => IncomingStreamData::PendingPurpose,
            StreamOpening::Rejected(reason) => IncomingStreamData::NeedsClosing { reason },
            StreamOpening::ConnectionManagement => IncomingStreamData::ConnectionManagement,
            StreamOpening::StardustPayloads { channel } => IncomingStreamData::StardustPayloads {
                id: channel,
            },
        };
        (opening, consumed)
    }

    /// Buffers a chunk received on a stream still waiting for its opening
    /// header, then reads the header from all the bytes buffered so far and
    /// moves the stream to the state the header decides.
    pub fn recv_chunk(
        &mut self,
        chunk: &[u8],
        unidirectional: bool,
        registry: &ChannelRegistry,
    ) -> (r: (StreamOpening, usize))
        requires
            old(self).data == IncomingStreamData::PendingPurpose,
            (old(self).buffer@ + chunk@).len() == 0 || purpose_from_code(
                (old(self).buffer@ + chunk@)[0],
            ) != Some(StreamPurposeHeader::UctrlStream),
        ensures
            final(self).buffer@ == old(self).buffer@ + chunk@,
            r.0 == opening_of(old(self).buffer@ + chunk@, unidirectional, registry.channels@),
            r.1 == opening_len(r.0),
            r.1 <= final(self).buffer@.len(),
            final(self).data == state_after_opening(r.0),
    {
        self.buffer.insert_back(chunk);
        self.read_opening(unidirectional, registry)
    }
}


/// An accepted opening consumes exactly the bytes of its header, so the
/// stream's data starts right after them: a connection management stream's
/// header is its purpose byte `0`; a payload stream's header is its purpose
/// byte `1` and the four big-endian bytes of its channel, which is
/// registered. Both need a unidirectional stream. A stream still waiting for
/// its header, or rejected, consumes nothing.
pub proof fn lemma_opening_consumes_header(
    s: Seq<u8>,
    unidirectional: bool,
    registry: Seq<ChannelConfiguration>,
)
    ensures
        opening_of(s, unidirectional, registry) == StreamOpening::ConnectionManagement ==> {
            &&& opening_len(opening_of(s, unidirectional, registry)) == 1
            &&& s.len() >= 1
            &&& s[0] == 0
            &&& unidirectional
        },
        opening_of(s, unidirectional, registry) matches StreamOpening::StardustPayloads {
            channel,
        } ==> {
            &&& opening_len(opening_of(s, unidirectional, registry)) == 5
            &&& s.len() >= 5
            &&& s[0] == 1
            &&& unidirectional
            &&& channel as int == s[1] * 0x100_0000 + s[2] * 0x1_0000 + s[3] * 0x100 + s[4]
            &&& (channel as nat) < registry.len()
        },
        (opening_of(s, unidirectional, registry) is Incomplete || opening_of(
            s,
            unidirectional,
            registry,
        ) is Rejected) ==> opening_len(opening_of(s, unidirectional, registry)) == 0,
        s.len() == 0 ==> opening_of(s, unidirectional, registry) is Incomplete,
{
    if s.len() >= 5 {
        let t = s.skip(1);
        assert(t[0] == s[1] && t[1] == s[2] && t[2] == s[3] && t[3] == s[4]);
    }
}

} // verus!
