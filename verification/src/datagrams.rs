//! Unreliable datagrams: the header that precedes each datagram's payload,
//! the per-channel sequence counters, and how a connection sends and
//! receives datagrams.
pub mod channels;
pub mod header;

use vstd::prelude::*;
use std::collections::BTreeMap;
use crate::numbers::{
    be_u16_bytes, be_u16_value, lemma_le_bytes_len, lemma_varint_roundtrip, varint_decode,
    varint_encoding, varint_len, varint_len_u32, varint_read, varint_tag, varint_write,
    next_seq, seq_newer, sequence_increment, sequence_newer,
};

verus! {

/// The header at the start of every datagram.
#[derive(Clone, Copy, Debug, PartialEq, Eq, Structural)]
pub enum DatagramHeader {
    /// An unordered message on `channel`.
    Stardust { channel: u32 },
    /// A message on `channel` that carries a sequence number.
    StardustSequenced { channel: u32, sequence: u16 },
}

/// The purpose code written first in a header.
pub open spec fn header_code(h: DatagramHeader) -> nat {
    match h {
        DatagramHeader::Stardust { .. } => 0,
        DatagramHeader::StardustSequenced { .. } => 1,
    }
}

/// The channel a header names.
pub open spec fn header_channel(h: DatagramHeader) -> u32 {
    match h {
        DatagramHeader::Stardust { channel } => channel,
        DatagramHeader::StardustSequenced { channel, .. } => channel,
    }
}

/// The bytes of a header: the purpose code and the channel as variable-length
/// integers, followed for sequenced messages by the sequence number in big-endian order.
pub open spec fn header_encoding(h: DatagramHeader) -> Seq<u8> {
    match h {
        DatagramHeader::Stardust { channel } => varint_encoding(0) + varint_encoding(
            channel as nat,
        ),
        DatagramHeader::StardustSequenced { channel, sequence } => varint_encoding(1)
            + varint_encoding(channel as nat) + be_u16_bytes(sequence),
    }
}

/// The size of a header, as the sum of the lengths of its parts.
pub open spec fn header_size(h: DatagramHeader) -> nat {
    match h {
        DatagramHeader::Stardust { channel } => varint_len(0) + varint_len(channel as nat),
        DatagramHeader::StardustSequenced { channel, .. } => varint_len(1) + varint_len(
            channel as nat,
        ) + 2,
    }
}

/// Decodes a header at the start of `s`, giving the header and the number of
/// bytes it took, or `None` if the bytes are not a header.
pub open spec fn header_decode(s: Seq<u8>) -> Option<(DatagramHeader, nat)> {
    match varint_decode(s) {
        None => None,
        Some((code, n1)) => {
            let t = s.skip(n1 as int);
            if code != 0 && code != 1 {
                None
            } else {
                match varint_decode(t) {
                    None => None,
                    Some((ch, n2)) => {
                        if ch > u32::MAX {
                            None
                        } else if code == 0 {
                            Some((DatagramHeader::Stardust { channel: ch as u32 }, n1 + n2))
                        } else if t.len() - n2 >= 2 {
                            Some(
                                (
                                    DatagramHeader::StardustSequenced {
                                        channel: ch as u32,
                                        sequence: be_u16_value(t[n2 as int], t[(n2 + 1) as int]),
                                    },
                                    n1 + n2 + 2,
                                ),
                            )
                        } else {
                            None
                        }
                    },
                }
            }
        },
    }
}

/// How many bytes of its encoding `write` appends before running out of room,
/// when writing `h` to a buffer that already holds `len` bytes.
pub open spec fn header_write_prefix(len: nat, h: DatagramHeader) -> nat {
    let a = varint_len(header_code(h));
    let b = varint_len(header_channel(h) as nat);
    if len + a > isize::MAX {
        0
    } else if len + a + b > isize::MAX {
        a
    } else {
        a + b
    }
}

impl DatagramHeader {
    /// Reads a header from the start of `buf`, returning it together with the
    /// number of bytes it occupied.
    pub fn read(buf: &[u8]) -> (r: Result<(DatagramHeader, usize), ()>)
        ensures
            match r {
                Ok((h, n)) => header_decode(buf@) == Some((h, n as nat)),
                Err(_) => header_decode(buf@) is None,
            },
    {
        let (code, rest) = varint_read(buf)?;
        let ghost n1 = (buf@.len() - rest@.len()) as nat;
        if code != 0 && code != 1 {
            return Err(());
        }
        let (channel, rest2) = varint_read(rest)?;
        if channel > u32::MAX as u64 {
            return Err(());
        }
        let channel = channel as u32;
        if code == 0 {
            return Ok((DatagramHeader::Stardust { channel }, buf.len() - rest2.len()));
        }
        if rest2.len() >= 2 {
            let sequence = (rest2[0] as u16) * 256 + (rest2[1] as u16);
            let used = buf.len() - rest2.len() + 2;
            proof {
                let t = buf@.skip(n1 as int);
                let n2 = (t.len() - rest2@.len()) as nat;
                assert(rest2@[0] == t[n2 as int]);
                assert(rest2@[1] == t[(n2 + 1) as int]);
            }
            Ok((DatagramHeader::StardustSequenced { channel, sequence }, used))
        } else {
            Err(())
        }
    }

    /// Appends the header to `buf`. It fails, having written only part of the
    /// header, when `buf` cannot grow by the header's size.
    pub fn write(&self, buf: &mut Vec<u8>) -> (r: Result<(), ()>)
        ensures
            r is Ok <==> old(buf)@.len() + header_size(*self) <= isize::MAX,
            r is Ok ==> final(buf)@ == old(buf)@ + header_encoding(*self),
            r is Err ==> final(buf)@ == old(buf)@ + header_encoding(*self).take(
                header_write_prefix(old(buf)@.len(), *self) as int,
            ),
    {
        proof {
            lemma_header_size(*self);
            lemma_varint_first_len(0);
            lemma_varint_first_len(1);
            lemma_varint_first_len(header_channel(*self) as nat);
        }
        let ghost old_buf = buf@;
        match self {
            DatagramHeader::Stardust { channel } => {
                let r1 = varint_write(0, buf);
                if r1.is_err() {
                    assert(header_encoding(*self).take(0) =~= Seq::<u8>::empty());
                    assert(buf@ =~= old_buf + header_encoding(*self).take(0));
                    return Err(());
                }
                let r2 = varint_write(*channel, buf);
                if r2.is_err() {
                    assert(header_encoding(*self).take(varint_len(0) as int) =~= varint_encoding(0));
                    return Err(());
                }
                assert(buf@ =~= old_buf + header_encoding(*self));
            },
            DatagramHeader::StardustSequenced { channel, sequence } => {
                let r1 = varint_write(1, buf);
                if r1.is_err() {
                    assert(header_encoding(*self).take(0) =~= Seq::<u8>::empty());
                    assert(buf@ =~= old_buf + header_encoding(*self).take(0));
                    return Err(());
                }
                let r2 = varint_write(*channel, buf);
                if r2.is_err() {
                    assert(header_encoding(*self).take(varint_len(1) as int) =~= varint_encoding(1));
                    return Err(());
                }
                let remaining = (isize::MAX as usize) - buf.len();
                if remaining >= 2 {
                    buf.push((*sequence / 256) as u8);
                    buf.push((*sequence % 256) as u8);
                    assert(buf@ =~= old_buf + header_encoding(*self));
                } else {
                    assert(header_encoding(*self).take(
                        (varint_len(1) + varint_len(*channel as nat)) as int,
                    ) =~= varint_encoding(1) + varint_encoding(*channel as nat));
                    assert(buf@ =~= old_buf + header_encoding(*self).take(
                        header_write_prefix(old_buf.len(), *self) as int,
                    ));
                    return Err(());
                }
            },
        }
        Ok(())
    }

    /// The header's encoding in a freshly allocated buffer.
    pub fn allocate(&self) -> (r: Vec<u8>)
        ensures
            r@ == header_encoding(*self),
    {
        let mut buf: Vec<u8> = Vec::with_capacity(8);
        proof {
            lemma_header_size(*self);
        }
        let res = self.write(&mut buf);
        assert(res is Ok);
        buf
    }

    /// The number of bytes `write` appends.
    pub fn size(&self) -> (r: usize)
        ensures
            r == header_size(*self),
            r == header_encoding(*self).len(),
    {
        proof {
            lemma_header_size(*self);
        }
        let mut tally: usize = 0;
        match self {
            DatagramHeader::Stardust { channel } => {
                tally = tally + varint_len_u32(0) as usize;
                tally = tally + varint_len_u32(*channel) as usize;
            },
            DatagramHeader::StardustSequenced { channel, .. } => {
                tally = tally + varint_len_u32(1) as usize;
                tally = tally + varint_len_u32(*channel) as usize;
                tally = tally + 2;
            },
        }
        tally
    }
}

/// The size of a header is the length of its encoding, at most 11 bytes.
pub proof fn lemma_header_size(h: DatagramHeader)
    ensures
        header_size(h) == header_encoding(h).len(),
        header_size(h) <= 11,
        header_size(h) >= 2,
{
    match h {
        DatagramHeader::Stardust { channel } => {
            lemma_le_bytes_len(4 * 0 + varint_tag(varint_len(0)), varint_len(0));
            lemma_le_bytes_len(
                4 * (channel as nat) + varint_tag(varint_len(channel as nat)),
                varint_len(channel as nat),
            );
        },
        DatagramHeader::StardustSequenced { channel, .. } => {
            lemma_le_bytes_len(4 * 1 + varint_tag(varint_len(1)), varint_len(1));
            lemma_le_bytes_len(
                4 * (channel as nat) + varint_tag(varint_len(channel as nat)),
                varint_len(channel as nat),
            );
        },
    }
}

/// Reading a written header gives back the same header, whatever bytes follow
/// it, together with the length of its encoding.
pub proof fn lemma_header_roundtrip(h: DatagramHeader, rest: Seq<u8>)
    ensures
        header_decode(header_encoding(h) + rest) == Some((h, header_encoding(h).len())),
{
    lemma_header_size(h);
    let s = header_encoding(h) + rest;
    match h {
        DatagramHeader::Stardust { channel } => {
            let e0 = varint_encoding(0);
            let e1 = varint_encoding(channel as nat);
            assert(s =~= e0 + (e1 + rest));
            lemma_varint_roundtrip(0, e1 + rest);
            lemma_varint_first_len(0);
            assert(s.skip(e0.len() as int) =~= e1 + rest);
            lemma_varint_roundtrip(channel as nat, rest);
        },
        DatagramHeader::StardustSequenced { channel, sequence } => {
            let e0 = varint_encoding(1);
            let e1 = varint_encoding(channel as nat);
            let e2 = be_u16_bytes(sequence);
            assert(s =~= e0 + (e1 + (e2 + rest)));
            lemma_varint_roundtrip(1, e1 + (e2 + rest));
            lemma_varint_first_len(1);
            lemma_varint_first_len(channel as nat);
            let t = s.skip(e0.len() as int);
            assert(t =~= e1 + (e2 + rest));
            lemma_varint_roundtrip(channel as nat, e2 + rest);
            let n2 = e1.len();
            assert(t[n2 as int] == e2[0]);
            assert(t[(n2 + 1) as int] == e2[1]);
            assert(be_u16_value(e2[0], e2[1]) == sequence);
        },
    }
}

/// The encoding of a variable-length integer is as long as `varint_len` says.
proof fn lemma_varint_first_len(v: nat)
    ensures
        varint_encoding(v).len() == varint_len(v),
{
    lemma_le_bytes_len(4 * v + varint_tag(varint_len(v)), varint_len(v));
}

/// A datagram waiting to be written: a header and the payload that follows it.
pub struct DatagramBuilder<'a> {
    pub header: DatagramHeader,
    pub payload: &'a [u8],
}

/// The bytes of a whole datagram: its header, then its payload.
pub open spec fn datagram_encoding(header: DatagramHeader, payload: Seq<u8>) -> Seq<u8> {
    header_encoding(header) + payload
}

impl<'a> DatagramBuilder<'a> {
    /// The size of the datagram: the header's size plus the payload's length.
    pub fn size(&self) -> (r: usize)
        requires
            self.payload@.len() + 11 <= usize::MAX,
        ensures
            r == header_size(self.header) + self.payload@.len(),
            r == datagram_encoding(self.header, self.payload@).len(),
    {
        self.header.size() + self.payload.len()
    }

    /// Appends the datagram to `buf`, or fails without writing anything when
    /// `buf` cannot grow by the datagram's size.
    pub fn write(self, buf: &mut Vec<u8>) -> (r: Result<(), ()>)
        ensures
            r is Ok <==> old(buf)@.len() + header_size(self.header) + self.payload@.len()
                <= isize::MAX,
            r is Ok ==> final(buf)@ == old(buf)@ + datagram_encoding(self.header, self.payload@),
            r is Err ==> final(buf)@ == old(buf)@,
    {
        let head = self.header.size();
        if buf.len() > isize::MAX as usize {
            return Err(());
        }
        let room = (isize::MAX as usize) - buf.len();
        if head > room || self.payload.len() > room - head {
            return Err(());
        }
        proof {
            lemma_header_size(self.header);
        }
        let ghost before = buf@;
        let res = self.header.write(buf);
        assert(res is Ok);
        let ghost middle = buf@;
        buf.extend_from_slice(self.payload);
        assert(buf@ =~= middle + self.payload@);
        assert(buf@ =~= before + datagram_encoding(self.header, self.payload@));
        Ok(())
    }
}

/// A received datagram, split into its header and its payload.
pub struct DatagramReceive {
    pub header: DatagramHeader,
    pub payload: Vec<u8>,
}

impl DatagramReceive {
    /// Splits `buf` into a header and the payload after it.
    pub fn parse(buf: &[u8]) -> (r: Result<DatagramReceive, ()>)
        ensures
            match r {
                Ok(d) => match header_decode(buf@) {
                    Some((h, n)) => d.header == h && d.payload@ == buf@.skip(n as int),
                    None => false,
                },
                Err(_) => header_decode(buf@) is None,
            },
    {
        let (header, used) = match DatagramHeader::read(buf) {
            Ok(v) => v,
            Err(_) => return Err(()),
        };
        let payload = vstd::slice::slice_to_vec(&buf[used..buf.len()]);
        assert(payload@ =~= buf@.skip(used as int));
        Ok(DatagramReceive { header, payload })
    }
}

/// Decoding a whole datagram gives back its header and payload.
pub proof fn lemma_datagram_roundtrip(header: DatagramHeader, payload: Seq<u8>)
    ensures
        header_decode(datagram_encoding(header, payload)) == Some(
            (header, header_encoding(header).len()),
        ),
        datagram_encoding(header, payload).skip(header_encoding(header).len() as int)
            == payload,
{
    lemma_header_roundtrip(header, payload);
    assert(datagram_encoding(header, payload).skip(header_encoding(header).len() as int)
        =~= payload);
}

/// What one connection sends unreliably, another receives intact: the bytes
/// of a `TransmitDatagram` event made by `send_dgram` are accepted by the
/// receiving connection's `recv_dgram` whenever the header is unsequenced or
/// carries a number newer than the receiver's latest on that channel, and
/// they decode to the same header and payload.
pub proof fn lemma_datagram_delivery(receiver: Connection, header: DatagramHeader, payload: Seq<u8>)
    ensures
        receiver.accepts_dgram(datagram_encoding(header, payload)) <==> match header {
            DatagramHeader::Stardust { .. } => true,
            DatagramHeader::StardustSequenced { channel, sequence } => seq_newer(
                sequence,
                receiver.incoming_latest(channel),
            ),
        },
        header_decode(datagram_encoding(header, payload)) == Some(
            (header, header_encoding(header).len()),
        ),
        datagram_encoding(header, payload).skip(header_encoding(header).len() as int)
            == payload,
{
    lemma_datagram_roundtrip(header, payload);
}

/// The most recent sequence number received on a channel.
#[derive(Clone, Copy, Debug)]
pub struct IncomingDatagramSequence(u16);

impl View for IncomingDatagramSequence {
    type V = u16;

    closed spec fn view(&self) -> u16 {
        self.0
    }
}

impl IncomingDatagramSequence {
    /// The held sequence number.
    pub fn value(&self) -> (r: u16)
        ensures
            r == self@,
    {
        self.0
    }

    /// Starts at the largest value, so that the sender's first number, `0`, counts as newer.
    pub fn new() -> (r: Self)
        ensures
            r@ == u16::MAX,
    {
        IncomingDatagramSequence(u16::MAX)
    }

    /// Records `index` and returns `true` if it is newer than every number seen
    /// so far; otherwise returns `false` and changes nothing.
    pub fn latest(&mut self, index: u16) -> (r: bool)
        ensures
            r == seq_newer(index, old(self)@),
            final(self)@ == if r { index } else { old(self)@ },
    {
        if sequence_newer(index, self.0) {
            self.0 = index;
            true
        } else {
            false
        }
    }
}

/// The next sequence number to send on a channel.
#[derive(Clone, Copy, Debug)]
pub struct OutgoingDatagramSequence(u16);

impl View for OutgoingDatagramSequence {
    type V = u16;

    closed spec fn view(&self) -> u16 {
        self.0
    }
}

impl OutgoingDatagramSequence {
    /// The held sequence number.
    pub fn value(&self) -> (r: u16)
        ensures
            r == self@,
    {
        self.0
    }

    /// Starts at `0`.
    pub fn new() -> (r: Self)
        ensures
            r@ == 0,
    {
        OutgoingDatagramSequence(0)
    }

    /// Returns the current number and advances to the next one, wrapping
    /// from the maximum to `0`.
    pub fn next(&mut self) -> (r: u16)
        ensures
            r == old(self)@,
            final(self)@ == next_seq(old(self)@),
    {
        let v = self.0;
        self.0 = sequence_increment(self.0);
        v
    }
}

/// Numbers produced one after another by a sender are each accepted by a
/// receiver, starting from fresh state on both sides: the first number, `0`,
/// is newer than the receiver's initial `u16::MAX`, and each number is newer
/// than the one before it, across the wrap from the maximum to `0` too.
pub proof fn lemma_sequence_in_order_accepted(v: u16)
    ensures
        seq_newer(0, u16::MAX),
        seq_newer(next_seq(v), v),
{
}

/// A number that was already accepted is refused when it arrives again, and
/// of two different numbers at most one is newer than the other.
pub proof fn lemma_sequence_no_replay(a: u16, b: u16)
    ensures
        !seq_newer(a, a),
        seq_newer(a, b) ==> !seq_newer(b, a),
{
}

/// The sequence state of each channel for incoming datagrams.
pub struct IncomingDatagrams {
    sequences: BTreeMap<u32, IncomingDatagramSequence>,
}

impl IncomingDatagrams {
    /// No channel has seen a datagram yet.
    pub fn new() -> (r: Self)
        ensures
            r.sequences() == Map::<u32, u16>::empty(),
    {
        IncomingDatagrams { sequences: BTreeMap::new() }
    }

    /// The latest sequence number received on each channel that has one.
    pub closed spec fn sequences(&self) -> Map<u32, u16> {
        Map::new(
            |c: u32| self.sequences@.contains_key(c),
            |c: u32| self.sequences@[c]@,
        )
    }
}

/// The sequence state of each channel for outgoing datagrams.
pub struct OutgoingDatagrams {
    sequences: BTreeMap<u32, OutgoingDatagramSequence>,
}

impl OutgoingDatagrams {
    /// No channel has sent a datagram yet.
    pub fn new() -> (r: Self)
        ensures
            r.sequences() == Map::<u32, u16>::empty(),
    {
        OutgoingDatagrams { sequences: BTreeMap::new() }
    }

    /// The next sequence number of each channel that has one.
    pub closed spec fn sequences(&self) -> Map<u32, u16> {
        Map::new(
            |c: u32| self.sequences@.contains_key(c),
            |c: u32| self.sequences@[c]@,
        )
    }
}

/// Something that happened on a connection, for the application or the endpoint to act on.
#[derive(Debug)]
pub enum ConnectionEvent {
    /// A message arrived on `channel`.
    ReceivedMessage { channel: u32, message: Vec<u8> },
    /// A datagram is ready to be sent to the peer.
    TransmitDatagram(Vec<u8>),
}

/// The content of a [`ConnectionEvent`].
pub enum EventView {
    ReceivedMessage { channel: u32, message: Seq<u8> },
    TransmitDatagram(Seq<u8>),
}

impl View for ConnectionEvent {
    type V = EventView;

    open spec fn view(&self) -> EventView {
        match self {
            ConnectionEvent::ReceivedMessage { channel, message } => EventView::ReceivedMessage {
                channel: *channel,
                message: message@,
            },
            ConnectionEvent::TransmitDatagram(bytes) => EventView::TransmitDatagram(bytes@),
        }
    }
}

/// The datagram state of a connection to one peer.
pub struct Connection {
    /// Events produced so far, oldest first.
    pub events: Vec<ConnectionEvent>,
    /// Datagrams too large to send unreliably, in the order they were handed over;
    /// they go to the peer over a stream instead.
    pub over_stream: Vec<Vec<u8>>,
    incoming_datagrams: IncomingDatagrams,
    outgoing_datagrams: OutgoingDatagrams,
}

impl Connection {
    /// The events, as values.
    pub closed spec fn events_view(&self) -> Seq<EventView> {
        self.events@.map_values(|e: ConnectionEvent| e@)
    }

    /// The datagrams queued for a stream, as byte sequences.
    pub closed spec fn over_stream_view(&self) -> Seq<Seq<u8>> {
        self.over_stream@.map_values(|v: Vec<u8>| v@)
    }

    /// The latest sequence number accepted on each channel.
    pub closed spec fn incoming_sequences(&self) -> Map<u32, u16> {
        self.incoming_datagrams.sequences()
    }

    /// The next sequence number to send on each channel that has sent one.
    pub closed spec fn outgoing_sequences(&self) -> Map<u32, u16> {
        self.outgoing_datagrams.sequences()
    }

    /// The number a sequenced datagram on `channel` must be newer than.
    pub open spec fn incoming_latest(&self, channel: u32) -> u16 {
        if self.incoming_sequences().contains_key(channel) {
            self.incoming_sequences()[channel]
        } else {
            u16::MAX
        }
    }

    /// The number the next sequenced datagram on `channel` gets.
    pub open spec fn outgoing_next(&self, channel: u32) -> u16 {
        if self.outgoing_sequences().contains_key(channel) {
            self.outgoing_sequences()[channel]
        } else {
            0
        }
    }

    /// Whether `recv_dgram` accepts `payload`: it holds a header and, if the
    /// header is sequenced, a sequence number newer than the channel's latest.
    pub open spec fn accepts_dgram(&self, payload: Seq<u8>) -> bool {
        match header_decode(payload) {
            None => false,
            Some((DatagramHeader::Stardust { .. }, _)) => true,
            Some((DatagramHeader::StardustSequenced { channel, sequence }, _)) => seq_newer(
                sequence,
                self.incoming_latest(channel),
            ),
        }
    }

    /// The latest sequence number accepted on `channel`, if any.
    pub fn incoming_sequence(&self, channel: u32) -> (r: Option<u16>)
        ensures
            r == if self.incoming_sequences().contains_key(channel) {
                Some(self.incoming_sequences()[channel])
            } else {
                None::<u16>
            },
    {
        match self.incoming_datagrams.sequences.get(&channel) {
            Some(s) => Some(s.value()),
            None => None,
        }
    }

    /// A connection with no events and no sequence state.
    pub fn new() -> (r: Self)
        ensures
            r.events_view() == Seq::<EventView>::empty(),
            r.over_stream_view() == Seq::<Seq<u8>>::empty(),
            r.incoming_sequences() == Map::<u32, u16>::empty(),
            r.outgoing_sequences() == Map::<u32, u16>::empty(),
    {
        let r = Connection {
            events: Vec::new(),
            over_stream: Vec::new(),
            incoming_datagrams: IncomingDatagrams::new(),
            outgoing_datagrams: OutgoingDatagrams::new(),
        };
        assert(r.events_view() =~= Seq::<EventView>::empty());
        assert(r.over_stream_view() =~= Seq::<Seq<u8>>::empty());
        r
    }

    /// Call when a datagram is received: the payload after the header becomes
    /// a received message on the header's channel. For a sequenced header the
    /// channel's latest number advances to the datagram's number.
    pub fn recv_dgram(&mut self, payload: Vec<u8>)
        requires
            old(self).accepts_dgram(payload@),
        ensures
            match header_decode(payload@) {
                Some((h, n)) => {
                    &&& final(self).events_view() == old(self).events_view().push(
                        EventView::ReceivedMessage {
                            channel: header_channel(h),
                            message: payload@.skip(n as int),
                        },
                    )
                    &&& final(self).incoming_sequences() == match h {
                        DatagramHeader::Stardust { .. } => old(self).incoming_sequences(),
                        DatagramHeader::StardustSequenced { channel, sequence } => old(self).incoming_sequences().insert(channel, sequence),
                    }
                },
                None => false,
            },
            final(self).outgoing_sequences() == old(self).outgoing_sequences(),
            final(self).over_stream_view() == old(self).over_stream_view(),
    {
        let dgram = match DatagramReceive::parse(payload.as_slice()) {
            Ok(d) => d,
            Err(_) => {
                proof {
                    assert(false);
                }
                return ;
            },
        };
        let ghost old_events = self.events_view();
        match dgram.header {
            DatagramHeader::Stardust { channel } => {
                self.events.push(
                    ConnectionEvent::ReceivedMessage { channel, message: dgram.payload },
                );
            },
            DatagramHeader::StardustSequenced { channel, sequence: remote } => {
                let mut local = match self.incoming_datagrams.sequences.get(&channel) {
                    Some(s) => *s,
                    None => IncomingDatagramSequence::new(),
                };
                let newer = local.latest(remote);
                self.incoming_datagrams.sequences.insert(channel, local);
                if !newer {
                    proof {
                        assert(false);
                    }
                    return ;
                }
                self.events.push(
                    ConnectionEvent::ReceivedMessage { channel, message: dgram.payload },
                );
                assert(self.incoming_sequences() =~= old(self).incoming_sequences().insert(
                    channel,
                    remote,
                ));
            },
        }
        assert(self.events_view() =~= old_events.push(
            EventView::ReceivedMessage {
                channel: header_channel(dgram.header),
                message: dgram.payload@,
            },
        ));
    }

    /// Queues a datagram to be sent. If it is larger than `size_limit` it goes
    /// over a stream instead; otherwise its bytes become a `TransmitDatagram` event.
    pub fn send_dgram(&mut self, datagram: DatagramBuilder, size_limit: usize)
        requires
            datagram.payload@.len() + 11 <= isize::MAX,
        ensures
            header_size(datagram.header) + datagram.payload@.len() > size_limit ==> {
                &&& final(self).over_stream_view() == old(self).over_stream_view().push(
                    datagram_encoding(datagram.header, datagram.payload@),
                )
                &&& final(self).events_view() == old(self).events_view()
            },
            header_size(datagram.header) + datagram.payload@.len() <= size_limit ==> {
                &&& final(self).events_view() == old(self).events_view().push(
                    EventView::TransmitDatagram(
                        datagram_encoding(datagram.header, datagram.payload@),
                    ),
                )
                &&& final(self).over_stream_view() == old(self).over_stream_view()
            },
            final(self).incoming_sequences() == old(self).incoming_sequences(),
            final(self).outgoing_sequences() == old(self).outgoing_sequences(),
    {
        let size = datagram.size();
        if size > size_limit {
            self.send_dgram_over_stream(datagram);
            return ;
        }
        let mut buf: Vec<u8> = Vec::with_capacity(size);
        let ghost old_events = self.events_view();
        let res = datagram.write(&mut buf);
        assert(res is Ok);
        assert(buf@.len() == size);
        self.events.push(ConnectionEvent::TransmitDatagram(buf));
        assert(self.events_view() =~= old_events.push(
            EventView::TransmitDatagram(datagram_encoding(datagram.header, datagram.payload@)),
        ));
    }

    /// Hands a datagram that is too large to send unreliably over to a stream.
    pub(crate) fn send_dgram_over_stream(&mut self, datagram: DatagramBuilder)
        requires
            datagram.payload@.len() + 11 <= isize::MAX,
        ensures
            final(self).over_stream_view() == old(self).over_stream_view().push(
                datagram_encoding(datagram.header, datagram.payload@),
            ),
            final(self).events_view() == old(self).events_view(),
            final(self).incoming_sequences() == old(self).incoming_sequences(),
            final(self).outgoing_sequences() == old(self).outgoing_sequences(),
    {
        let mut buf: Vec<u8> = Vec::new();
        let ghost old_over = self.over_stream_view();
        let res = datagram.write(&mut buf);
        assert(res is Ok);
        self.over_stream.push(buf);
        assert(self.over_stream_view() =~= old_over.push(
            datagram_encoding(datagram.header, datagram.payload@),
        ));
    }

    /// Draws the next sequence number of `channel`, creating the channel's
    /// outgoing sequence (starting at `0`) if it has none yet.
    pub fn channel_dgram_out_seq(&mut self, channel: u32) -> (r: u16)
        ensures
            r == old(self).outgoing_next(channel),
            final(self).outgoing_sequences() == old(self).outgoing_sequences().insert(
                channel,
                next_seq(r),
            ),
            final(self).incoming_sequences() == old(self).incoming_sequences(),
            final(self).events_view() == old(self).events_view(),
            final(self).over_stream_view() == old(self).over_stream_view(),
    {
        let mut seq = match self.outgoing_datagrams.sequences.get(&channel) {
            Some(s) => *s,
            None => OutgoingDatagramSequence::new(),
        };
        let v = seq.next();
        self.outgoing_datagrams.sequences.insert(channel, seq);
        assert(self.outgoing_sequences() =~= old(self).outgoing_sequences().insert(
            channel,
            next_seq(v),
        ));
        v
    }
}

} // verus!
