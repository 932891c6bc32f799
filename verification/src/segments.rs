//! Segments: a header followed by a message payload, sent either as one
//! unreliable datagram or, when too large or when reliability is needed, over a stream.
use vstd::prelude::*;
use std::collections::BTreeMap;
use crate::datagrams::{
    header_channel, header_decode, header_encoding, header_size, header_write_prefix,
    lemma_header_size, ConnectionEvent, DatagramHeader, EventView,
};
use crate::messages::{MessageSequence, MessageSequenceMap};
use crate::numbers::seq_newer;

verus! {

/// The header at the start of every segment.
#[derive(Clone, Copy, Debug, PartialEq, Eq, Structural)]
pub enum Header {
    /// An unordered message on `channel`.
    Stardust { channel: u32 },
    /// A message on `channel` that carries a sequence number.
    StardustSequenced { channel: u32, sequence: u16 },
}

/// The datagram header with the same fields; both share one wire format.
pub open spec fn as_datagram_header(h: Header) -> DatagramHeader {
    match h {
        Header::Stardust { channel } => DatagramHeader::Stardust { channel },
        Header::StardustSequenced { channel, sequence } => DatagramHeader::StardustSequenced {
            channel,
            sequence,
        },
    }
}

/// The segment header with the same fields.
pub open spec fn as_segment_header(h: DatagramHeader) -> Header {
    match h {
        DatagramHeader::Stardust { channel } => Header::Stardust { channel },
        DatagramHeader::StardustSequenced { channel, sequence } => Header::StardustSequenced {
            channel,
            sequence,
        },
    }
}

/// Decodes a segment header at the start of `s`.
pub open spec fn segment_header_decode(s: Seq<u8>) -> Option<(Header, nat)> {
    match header_decode(s) {
        Some((h, n)) => Some((as_segment_header(h), n)),
        None => None,
    }
}

impl Header {
    fn to_datagram_header(&self) -> (r: DatagramHeader)
        ensures
            r == as_datagram_header(*self),
    {
        match *self {
            Header::Stardust { channel } => DatagramHeader::Stardust { channel },
            Header::StardustSequenced { channel, sequence } => DatagramHeader::StardustSequenced {
                channel,
                sequence,
            },
        }
    }

    /// Reads a header from the start of `buf`, returning it together with the
    /// number of bytes it occupied.
    pub fn read(buf: &[u8]) -> (r: Result<(Header, usize), ()>)
        ensures
            match r {
                Ok((h, n)) => segment_header_decode(buf@) == Some((h, n as nat)),
                Err(_) => segment_header_decode(buf@) is None,
            },
    {
        match DatagramHeader::read(buf) {
            Ok((DatagramHeader::Stardust { channel }, n)) => Ok((Header::Stardust { channel }, n)),
            Ok((DatagramHeader::StardustSequenced { channel, sequence }, n)) => Ok(
                (Header::StardustSequenced { channel, sequence }, n),
            ),
            Err(e) => Err(e),
        }
    }

    /// Appends the header to `buf`. It fails, having written only part of the
    /// header, when `buf` cannot grow by the header's size.
    pub fn write(&self, buf: &mut Vec<u8>) -> (r: Result<(), ()>)
        ensures
            r is Ok <==> old(buf)@.len() + header_size(as_datagram_header(*self)) <= isize::MAX,
            r is Ok ==> final(buf)@ == old(buf)@ + header_encoding(as_datagram_header(*self)),
            r is Err ==> final(buf)@ == old(buf)@ + header_encoding(
                as_datagram_header(*self),
            ).take(header_write_prefix(old(buf)@.len(), as_datagram_header(*self)) as int),
    {
        self.to_datagram_header().write(buf)
    }

    /// The header's encoding in a freshly allocated buffer.
    pub fn allocate(&self) -> (r: Vec<u8>)
        ensures
            r@ == header_encoding(as_datagram_header(*self)),
    {
        self.to_datagram_header().allocate()
    }

    /// The number of bytes `write` appends.
    pub fn size(&self) -> (r: usize)
        ensures
            r == header_size(as_datagram_header(*self)),
            r == header_encoding(as_datagram_header(*self)).len(),
    {
        self.to_datagram_header().size()
    }
}

/// A header and the payload that follows it.
pub struct Segment {
    pub header: Header,
    pub payload: Vec<u8>,
}

/// The bytes of a whole segment: its header, then its payload.
pub open spec fn segment_encoding(header: Header, payload: Seq<u8>) -> Seq<u8> {
    header_encoding(as_datagram_header(header)) + payload
}

impl Segment {
    /// The size of the segment: the header's size plus the payload's length.
    pub fn size(&self) -> (r: usize)
        requires
            self.payload@.len() + 11 <= usize::MAX,
        ensures
            r == header_size(as_datagram_header(self.header)) + self.payload@.len(),
            r == segment_encoding(self.header, self.payload@).len(),
    {
        self.header.size() + self.payload.len()
    }

    /// Appends the segment to `buf`, or fails without writing anything when
    /// `buf` cannot grow by the segment's size.
    pub fn write(self, buf: &mut Vec<u8>) -> (r: Result<(), ()>)
        ensures
            r is Ok <==> old(buf)@.len() + header_size(as_datagram_header(self.header))
                + self.payload@.len() <= isize::MAX,
            r is Ok ==> final(buf)@ == old(buf)@ + segment_encoding(self.header, self.payload@),
            r is Err ==> final(buf)@ == old(buf)@,
    {
        let head = self.header.size();
        if buf.len() > isize::MAX as usize {
            return Err(());
        }
        let room = (isize::MAX as usize) - buf.len();
        if head > room || self.payload.len() > room - head {
            return Err(());
        }
        proof {
            lemma_header_size(as_datagram_header(self.header));
        }
        let ghost before = buf@;
        let res = self.header.write(buf);
        assert(res is Ok);
        let ghost middle = buf@;
        buf.extend_from_slice(self.payload.as_slice());
        assert(buf@ =~= middle + self.payload@);
        assert(buf@ =~= before + segment_encoding(self.header, self.payload@));
        Ok(())
    }

    /// Splits `buf` into a header and the payload after it.
    pub fn parse(buf: &[u8]) -> (r: Result<Segment, ()>)
        ensures
            match r {
                Ok(seg) => match segment_header_decode(buf@) {
                    Some((h, n)) => seg.header == h && seg.payload@ == buf@.skip(n as int),
                    None => false,
                },
                Err(_) => segment_header_decode(buf@) is None,
            },
    {
        let (header, used) = match Header::read(buf) {
            Ok(v) => v,
            Err(_) => return Err(()),
        };
        let payload = vstd::slice::slice_to_vec(&buf[used..buf.len()]);
        assert(payload@ =~= buf@.skip(used as int));
        Ok(Segment { header, payload })
    }
}

/// Reading a written segment gives back its header and payload: segments and
/// datagrams share one header format.
pub proof fn lemma_segment_roundtrip(header: Header, payload: Seq<u8>)
    ensures
        segment_header_decode(segment_encoding(header, payload)) == Some(
            (header, header_encoding(as_datagram_header(header)).len()),
        ),
        segment_encoding(header, payload).skip(
            header_encoding(as_datagram_header(header)).len() as int,
        ) == payload,
{
    crate::datagrams::lemma_datagram_roundtrip(as_datagram_header(header), payload);
}

/// The stream a segment travels on.
#[derive(Clone, Copy, Debug, PartialEq, Eq, Structural)]
pub enum StreamTarget {
    /// A stream opened for this segment alone.
    Transient,
    /// The long-lived stream of a channel.
    Channel(u32),
}

/// Encoded segments waiting to be written to a stream.
pub struct StreamSegment {
    pub target: StreamTarget,
    pub bytes: Vec<u8>,
}

/// The content of a [`StreamSegment`].
pub struct StreamSegmentView {
    pub target: StreamTarget,
    pub bytes: Seq<u8>,
}

/// The message state of a connection to one peer.
pub struct Connection {
    /// Events produced so far, oldest first.
    pub events: Vec<ConnectionEvent>,
    /// Segments handed over to streams, oldest first.
    pub streams: Vec<StreamSegment>,
    /// The sequence numbers of each channel.
    pub message_sequences: MessageSequenceMap,
}

impl Connection {
    /// The events, as values.
    pub open spec fn events_view(&self) -> Seq<EventView> {
        self.events@.map_values(|e: ConnectionEvent| e@)
    }

    /// The segments handed over to streams, as values.
    pub open spec fn streams_view(&self) -> Seq<StreamSegmentView> {
        self.streams@.map_values(
            |s: StreamSegment| StreamSegmentView { target: s.target, bytes: s.bytes@ },
        )
    }

    /// The current number of each channel that has one in the local map.
    pub open spec fn local_sequences(&self) -> Map<u32, u16> {
        self.message_sequences.local_view()
    }

    /// The local number of `channel`, `0` until the channel has one.
    pub open spec fn local_sequence(&self, channel: u32) -> u16 {
        if self.local_sequences().contains_key(channel) {
            self.local_sequences()[channel]
        } else {
            0
        }
    }

    /// Whether `recv_dgram` accepts `payload`: it holds a header and, if the
    /// header is sequenced, a sequence number newer than the channel's local number.
    pub open spec fn accepts_dgram(&self, payload: Seq<u8>) -> bool {
        match segment_header_decode(payload) {
            None => false,
            Some((Header::Stardust { .. }, _)) => true,
            Some((Header::StardustSequenced { channel, sequence }, _)) => seq_newer(
                sequence,
                self.local_sequence(channel),
            ),
        }
    }

    /// A connection with no events, no stream segments and no sequence numbers.
    pub fn new() -> (r: Self)
        ensures
            r.events_view() == Seq::<EventView>::empty(),
            r.streams_view() == Seq::<StreamSegmentView>::empty(),
            r.local_sequences() == Map::<u32, u16>::empty(),
            r.message_sequences.remote_view() == Map::<u32, u16>::empty(),
    {
        let r = Connection {
            events: Vec::new(),
            streams: Vec::new(),
            message_sequences: MessageSequenceMap::new(),
        };
        assert(r.events_view() =~= Seq::<EventView>::empty());
        assert(r.streams_view() =~= Seq::<StreamSegmentView>::empty());
        r
    }

    /// Call when a datagram is received: the payload after the header becomes
    /// a received message on the header's channel. For a sequenced header the
    /// channel's local number advances to the segment's number.
    pub fn recv_dgram(&mut self, payload: Vec<u8>)
        requires
            old(self).accepts_dgram(payload@),
        ensures
            match segment_header_decode(payload@) {
                Some((h, n)) => {
                    &&& final(self).events_view() == old(self).events_view().push(
                        EventView::ReceivedMessage {
                            channel: header_channel(as_datagram_header(h)),
                            message: payload@.skip(n as int),
                        },
                    )
                    &&& final(self).local_sequences() == match h {
                        Header::Stardust { .. } => old(self).local_sequences(),
                        Header::StardustSequenced { channel, sequence } => old(self).local_sequences().insert(channel, sequence),
                    }
                },
                None => false,
            },
            final(self).message_sequences.remote_view()
                == old(self).message_sequences.remote_view(),
            final(self).streams_view() == old(self).streams_view(),
    {
        let dgram = match Segment::parse(payload.as_slice()) {
            Ok(d) => d,
            Err(_) => {
                proof {
                    assert(false);
                }
                return ;
            },
        };
        let ghost old_events = self.events_view();
        match dgram.header {
            Header::Stardust { channel } => {
                self.events.push(
                    ConnectionEvent::ReceivedMessage { channel, message: dgram.payload },
                );
            },
            Header::StardustSequenced { channel, sequence: remote } => {
                let newer = self.message_sequences.latest_local(channel, remote);
                if !newer {
                    proof {
                        assert(false);
                    }
                    return ;
                }
                self.events.push(
                    ConnectionEvent::ReceivedMessage { channel, message: dgram.payload },
                );
            },
        }
        assert(self.events_view() =~= old_events.push(
            EventView::ReceivedMessage {
                channel: header_channel(as_datagram_header(dgram.header)),
                message: dgram.payload@,
            },
        ));
    }

    /// Sends a segment: if it is larger than `size_limit` it goes over a
    /// transient stream, otherwise its bytes become a `TransmitDatagram` event.
    pub(crate) fn send_segment(&mut self, chunk: Segment, size_limit: usize)
        requires
            chunk.payload@.len() + 11 <= isize::MAX,
        ensures
            final(self).events_view() == if header_size(as_datagram_header(chunk.header))
                + chunk.payload@.len() > size_limit {
                old(self).events_view()
            } else {
                old(self).events_view().push(
                    EventView::TransmitDatagram(segment_encoding(chunk.header, chunk.payload@)),
                )
            },
            final(self).streams_view() == if header_size(as_datagram_header(chunk.header))
                + chunk.payload@.len() > size_limit {
                old(self).streams_view().push(
                    StreamSegmentView {
                        target: StreamTarget::Transient,
                        bytes: segment_encoding(chunk.header, chunk.payload@),
                    },
                )
            } else {
                old(self).streams_view()
            },
            final(self).message_sequences == old(self).message_sequences,
    {
        let size = chunk.size();
        if size > size_limit {
            self.stream_segment_transient(chunk);
            return ;
        }
        let mut buf: Vec<u8> = Vec::with_capacity(size);
        let ghost old_events = self.events_view();
        let ghost enc = segment_encoding(chunk.header, chunk.payload@);
        let res = chunk.write(&mut buf);
        assert(res is Ok);
        self.events.push(ConnectionEvent::TransmitDatagram(buf));
        assert(self.events_view() =~= old_events.push(EventView::TransmitDatagram(enc)));
    }

    /// Hands a segment over to a stream opened for it alone.
    pub(crate) fn stream_segment_transient(&mut self, chunk: Segment)
        requires
            chunk.payload@.len() + 11 <= isize::MAX,
        ensures
            final(self).streams_view() == old(self).streams_view().push(
                StreamSegmentView {
                    target: StreamTarget::Transient,
                    bytes: segment_encoding(chunk.header, chunk.payload@),
                },
            ),
            final(self).events_view() == old(self).events_view(),
            final(self).message_sequences == old(self).message_sequences,
    {
        self.stream_segment(StreamTarget::Transient, chunk);
    }

    /// Hands a segment over to the stream `target`.
    pub(crate) fn stream_segment(&mut self, target: StreamTarget, chunk: Segment)
        requires
            chunk.payload@.len() + 11 <= isize::MAX,
        ensures
            final(self).streams_view() == old(self).streams_view().push(
                StreamSegmentView {
                    target,
                    bytes: segment_encoding(chunk.header, chunk.payload@),
                },
            ),
            final(self).events_view() == old(self).events_view(),
            final(self).message_sequences == old(self).message_sequences,
    {
        let mut buf: Vec<u8> = Vec::new();
        let ghost old_streams = self.streams_view();
        let ghost enc = segment_encoding(chunk.header, chunk.payload@);
        let res = chunk.write(&mut buf);
        assert(res is Ok);
        self.streams.push(StreamSegment { target, bytes: buf });
        assert(self.streams_view() =~= old_streams.push(
            StreamSegmentView { target, bytes: enc },
        ));
    }
}

} // verus!
