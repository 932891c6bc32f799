//! Outgoing messages: how each message of a channel is turned into segments
//! according to the channel's consistency, and the sequence numbers used for it.
use vstd::prelude::*;
use std::collections::BTreeMap;
use crate::channels::{ChannelRegistry, MessageConsistency};
use crate::datagrams::{header_size, lemma_header_size, EventView};
use crate::numbers::{next_seq, seq_newer, sequence_increment, sequence_newer};
use crate::segments::{
    as_datagram_header, segment_encoding, Connection, Header, Segment, StreamSegmentView,
    StreamTarget,
};

verus! {

/// A sequence number of a channel.
#[derive(Clone, Copy, Debug)]
pub struct MessageSequence(u16);

impl View for MessageSequence {
    type V = u16;

    closed spec fn view(&self) -> u16 {
        self.0
    }
}

impl MessageSequence {
    /// The held sequence number.
    pub fn value(&self) -> (r: u16)
        ensures
            r == self@,
    {
        self.0
    }

    /// Starts at `0`.
    pub fn new() -> (r: Self)
        ensures
            r@ == 0,
    {
        MessageSequence(0)
    }

    /// Returns the current number and advances to the next one, wrapping
    /// from the maximum to `0`.
    pub fn next(&mut self) -> (r: u16)
        ensures
            r == old(self)@,
            final(self)@ == next_seq(old(self)@),
    {
        let v = self.0;
        self.0 = sequence_increment(self.0);
        v
    }

    /// Records `index` and returns `true` if it is newer than the current
    /// number; otherwise returns `false` and changes nothing.
    pub fn latest(&mut self, index: u16) -> (r: bool)
        ensures
            r == seq_newer(index, old(self)@),
            final(self)@ == if r { index } else { old(self)@ },
    {
        if sequence_newer(index, self.0) {
            self.0 = index;
            true
        } else {
            false
        }
    }
}

/// The sequence numbers of each channel, for this side and for the peer.
pub struct MessageSequenceMap {
    pub local: BTreeMap<u32, MessageSequence>,
    pub remote: BTreeMap<u32, MessageSequence>,
}

impl MessageSequenceMap {
    /// The numbers in `local`.
    pub open spec fn local_view(&self) -> Map<u32, u16> {
        Map::new(|c: u32| self.local@.contains_key(c), |c: u32| self.local@[c]@)
    }

    /// The numbers in `remote`.
    pub open spec fn remote_view(&self) -> Map<u32, u16> {
        Map::new(|c: u32| self.remote@.contains_key(c), |c: u32| self.remote@[c]@)
    }

    /// Both maps empty.
    pub fn new() -> (r: Self)
        ensures
            r.local_view() == Map::<u32, u16>::empty(),
            r.remote_view() == Map::<u32, u16>::empty(),
    {
        let r = MessageSequenceMap { local: BTreeMap::new(), remote: BTreeMap::new() };
        assert(r.local_view() =~= Map::<u32, u16>::empty());
        assert(r.remote_view() =~= Map::<u32, u16>::empty());
        r
    }

    /// Applies `MessageSequence::latest` to the local number of `channel`,
    /// creating it at `0` first if the channel has none.
    pub fn latest_local(&mut self, channel: u32, index: u16) -> (r: bool)
        ensures
            ({
                let cur = if old(self).local_view().contains_key(channel) {
                    old(self).local_view()[channel]
                } else {
                    0u16
                };
                &&& r == seq_newer(index, cur)
                &&& final(self).local_view() == old(self).local_view().insert(
                    channel,
                    if r { index } else { cur },
                )
            }),
            final(self).remote_view() == old(self).remote_view(),
    {
        let mut local = match self.local.get(&channel) {
            Some(s) => *s,
            None => MessageSequence::new(),
        };
        let r = local.latest(index);
        self.local.insert(channel, local);
        assert(self.local_view() =~= old(self).local_view().insert(channel, local@));
        assert(self.remote_view() =~= old(self).remote_view());
        r
    }

    /// Draws the next local number of `channel`, creating it at `0` first if
    /// the channel has none.
    pub fn next_local(&mut self, channel: u32) -> (r: u16)
        ensures
            r == if old(self).local_view().contains_key(channel) {
                old(self).local_view()[channel]
            } else {
                0u16
            },
            final(self).local_view() == old(self).local_view().insert(channel, next_seq(r)),
            final(self).remote_view() == old(self).remote_view(),
    {
        let mut local = match self.local.get(&channel) {
            Some(s) => *s,
            None => MessageSequence::new(),
        };
        let r = local.next();
        self.local.insert(channel, local);
        assert(self.local_view() =~= old(self).local_view().insert(channel, next_seq(r)));
        assert(self.remote_view() =~= old(self).remote_view());
        r
    }
}

/// Context object required to handle outgoing messages.
#[derive(Clone, Copy)]
pub struct SendContext<'a> {
    /// The application's channel registry.
    pub registry: &'a ChannelRegistry,
    /// The maximum size of sent datagrams.
    pub dgram_max_size: usize,
}

/// Messages waiting to be sent, grouped by channel.
pub struct MessageQueue {
    /// Each channel with its messages, oldest first.
    pub channels: Vec<(u32, Vec<Vec<u8>>)>,
}

/// The outgoing messages of one peer.
pub struct PeerMessages {
    pub queue: MessageQueue,
}

/// The parts of a connection that sending messages changes.
pub struct SendView {
    pub events: Seq<EventView>,
    pub streams: Seq<StreamSegmentView>,
    pub local: Map<u32, u16>,
}

/// The send state of a connection.
pub open spec fn send_view(c: &Connection) -> SendView {
    SendView {
        events: c.events_view(),
        streams: c.streams_view(),
        local: c.local_sequences(),
    }
}

/// Sending one segment: unreliably when it fits in `limit`, else over a transient stream.
pub open spec fn segment_sent(v: SendView, header: Header, payload: Seq<u8>, limit: nat) -> SendView {
    if header_size(as_datagram_header(header)) + payload.len() > limit {
        SendView {
            streams: v.streams.push(
                StreamSegmentView {
                    target: StreamTarget::Transient,
                    bytes: segment_encoding(header, payload),
                },
            ),
            ..v
        }
    } else {
        SendView {
            events: v.events.push(EventView::TransmitDatagram(segment_encoding(header, payload))),
            ..v
        }
    }
}

/// Handing one segment to the stream `target`.
pub open spec fn segment_streamed(
    v: SendView,
    target: StreamTarget,
    header: Header,
    payload: Seq<u8>,
) -> SendView {
    SendView {
        streams: v.streams.push(
            StreamSegmentView { target, bytes: segment_encoding(header, payload) },
        ),
        ..v
    }
}

/// The local number of `channel` in a send state, `0` until it has one.
pub open spec fn view_sequence(v: SendView, channel: u32) -> u16 {
    if v.local.contains_key(channel) {
        v.local[channel]
    } else {
        0
    }
}

/// Sending one message on `channel` with the given consistency, or `None`
/// when the message is too long.
pub open spec fn message_sent(
    v: SendView,
    channel: u32,
    consistency: MessageConsistency,
    message: Seq<u8>,
    limit: nat,
) -> Option<SendView> {
    if message.len() + 11 > isize::MAX {
        None
    } else {
        match consistency {
            MessageConsistency::UnreliableUnordered => Some(
                segment_sent(v, Header::Stardust { channel }, message, limit),
            ),
            MessageConsistency::UnreliableSequenced => {
                let s = view_sequence(v, channel);
                let v2 = SendView { local: v.local.insert(channel, next_seq(s)), ..v };
                Some(
                    segment_sent(
                        v2,
                        Header::StardustSequenced { channel, sequence: s },
                        message,
                        limit,
                    ),
                )
            },
            MessageConsistency::ReliableUnordered => Some(
                segment_streamed(v, StreamTarget::Transient, Header::Stardust { channel }, message),
            ),
            MessageConsistency::ReliableOrdered => Some(
                segment_streamed(
                    v,
                    StreamTarget::Channel(channel),
                    Header::Stardust { channel },
                    message,
                ),
            ),
        }
    }
}

/// Sending `messages` in order on `channel`, or `None` if any step fails.
pub open spec fn messages_sent(
    v: SendView,
    channel: u32,
    consistency: MessageConsistency,
    messages: Seq<Seq<u8>>,
    limit: nat,
) -> Option<SendView>
    decreases messages.len(),
{
    if messages.len() == 0 {
        Some(v)
    } else {
        match messages_sent(v, channel, consistency, messages.drop_last(), limit) {
            None => None,
            Some(w) => message_sent(w, channel, consistency, messages.last(), limit),
        }
    }
}

/// Sending the messages of `channel` as the registry says, or `None` if the
/// channel is not registered or any message fails.
pub open spec fn channel_sent(
    v: SendView,
    registry: Seq<crate::channels::ChannelConfiguration>,
    channel: u32,
    messages: Seq<Seq<u8>>,
    limit: nat,
) -> Option<SendView> {
    if channel < registry.len() {
        messages_sent(v, channel, registry[channel as int].consistency, messages, limit)
    } else {
        None
    }
}

/// Sending every channel of a queue in order, or `None` if any step fails.
pub open spec fn queue_sent(
    v: SendView,
    registry: Seq<crate::channels::ChannelConfiguration>,
    entries: Seq<(u32, Seq<Seq<u8>>)>,
    limit: nat,
) -> Option<SendView>
    decreases entries.len(),
{
    if entries.len() == 0 {
        Some(v)
    } else {
        match queue_sent(v, registry, entries.drop_last(), limit) {
            None => None,
            Some(w) => channel_sent(w, registry, entries.last().0, entries.last().1, limit),
        }
    }
}

/// On an unreliable sequenced channel each message takes the next sequence
/// number: after sending `n` messages the channel's number has advanced by
/// `n`, counting modulo `2^16`, and no other channel's number has moved.
pub proof fn lemma_sequenced_numbers_consecutive(
    v: SendView,
    channel: u32,
    messages: Seq<Seq<u8>>,
    limit: nat,
)
    requires
        messages_sent(v, channel, MessageConsistency::UnreliableSequenced, messages, limit) is Some,
    ensures
        ({
            let w = messages_sent(
                v,
                channel,
                MessageConsistency::UnreliableSequenced,
                messages,
                limit,
            ).unwrap();
            &&& view_sequence(w, channel) == (view_sequence(v, channel) + messages.len())
                % 0x10000
            &&& forall|c: u32| c != channel ==> view_sequence(w, c) == view_sequence(v, c)
        }),
    decreases messages.len(),
{
    if messages.len() > 0 {
        lemma_sequenced_numbers_consecutive(v, channel, messages.drop_last(), limit);
        let k = messages.len() - 1;
        vstd::arithmetic::div_mod::lemma_add_mod_noop(view_sequence(v, channel) + k, 1, 0x10000);
    } else {
        vstd::arithmetic::div_mod::lemma_small_mod(view_sequence(v, channel) as nat, 0x10000);
    }
}

/// The messages of a vector, as byte sequences.
pub open spec fn messages_view(messages: Seq<Vec<u8>>) -> Seq<Seq<u8>> {
    messages.map_values(|m: Vec<u8>| m@)
}

/// The entries of a queue, as values.
pub open spec fn queue_view(q: &MessageQueue) -> Seq<(u32, Seq<Seq<u8>>)> {
    q.channels@.map_values(|e: (u32, Vec<Vec<u8>>)| (e.0, messages_view(e.1@)))
}

/// A copy of each message.
fn clone_messages(messages: &Vec<Vec<u8>>) -> (r: Vec<Vec<u8>>)
    ensures
        messages_view(r@) == messages_view(messages@),
{
    let mut r: Vec<Vec<u8>> = Vec::new();
    let n = messages.len();
    let mut i: usize = 0;
    while i < n
        invariant
            0 <= i <= n,
            n == messages@.len(),
            r@.len() == i,
            forall|j: int| 0 <= j < i ==> #[trigger] r@[j]@ == messages@[j]@,
        decreases n - i,
    {
        let m = messages[i].clone();
        assert(m@ =~= messages@[i as int]@);
        r.push(m);
        i = i + 1;
    }
    assert(messages_view(r@) =~= messages_view(messages@));
    r
}

proof fn lemma_messages_sent_prefix(
    v: SendView,
    channel: u32,
    consistency: MessageConsistency,
    messages: Seq<Seq<u8>>,
    i: int,
    limit: nat,
)
    requires
        0 <= i < messages.len(),
        messages_sent(v, channel, consistency, messages, limit) is Some,
    ensures
        messages_sent(v, channel, consistency, messages.take(i), limit) is Some,
        message_sent(
            messages_sent(v, channel, consistency, messages.take(i), limit).unwrap(),
            channel,
            consistency,
            messages[i],
            limit,
        ) is Some,
    decreases messages.len(),
{
    let n = messages.len();
    if i == n - 1 {
        assert(messages.drop_last() =~= messages.take(i));
    } else {
        assert(messages.drop_last().take(i) =~= messages.take(i));
        assert(messages.drop_last()[i] == messages[i]);
        lemma_messages_sent_prefix(v, channel, consistency, messages.drop_last(), i, limit);
    }
}

proof fn lemma_queue_sent_prefix(
    v: SendView,
    registry: Seq<crate::channels::ChannelConfiguration>,
    entries: Seq<(u32, Seq<Seq<u8>>)>,
    i: int,
    limit: nat,
)
    requires
        0 <= i < entries.len(),
        queue_sent(v, registry, entries, limit) is Some,
    ensures
        queue_sent(v, registry, entries.take(i), limit) is Some,
        channel_sent(
            queue_sent(v, registry, entries.take(i), limit).unwrap(),
            registry,
            entries[i].0,
            entries[i].1,
            limit,
        ) is Some,
    decreases entries.len(),
{
    let n = entries.len();
    if i == n - 1 {
        assert(entries.drop_last() =~= entries.take(i));
    } else {
        assert(entries.drop_last().take(i) =~= entries.take(i));
        assert(entries.drop_last()[i] == entries[i]);
        lemma_queue_sent_prefix(v, registry, entries.drop_last(), i, limit);
    }
}

impl Connection {
    /// Handles the outgoing messages of a peer.
    pub fn handle_outgoing<'a>(&'a mut self, context: SendContext<'a>, queue: &'a PeerMessages)
        requires
            queue_sent(
                send_view(old(self)),
                context.registry.channels@,
                queue_view(&queue.queue),
                context.dgram_max_size as nat,
            ) is Some,
        ensures
            Some(send_view(final(self))) == queue_sent(
                send_view(old(self)),
                context.registry.channels@,
                queue_view(&queue.queue),
                context.dgram_max_size as nat,
            ),
            final(self).message_sequences.remote_view()
                == old(self).message_sequences.remote_view(),
    {
        self.handle_outgoing_queue(context, &queue.queue)
    }

    /// Handles outgoing messages from a queue, channel by channel.
    pub fn handle_outgoing_queue<'a>(&'a mut self, context: SendContext<'a>, queue: &'a MessageQueue)
        requires
            queue_sent(
                send_view(old(self)),
                context.registry.channels@,
                queue_view(queue),
                context.dgram_max_size as nat,
            ) is Some,
        ensures
            Some(send_view(final(self))) == queue_sent(
                send_view(old(self)),
                context.registry.channels@,
                queue_view(queue),
                context.dgram_max_size as nat,
            ),
            final(self).message_sequences.remote_view()
                == old(self).message_sequences.remote_view(),
    {
        let ghost v0 = send_view(self);
        let ghost reg = context.registry.channels@;
        let ghost entries = queue_view(queue);
        let ghost limit = context.dgram_max_size as nat;
        let n = queue.channels.len();
        let mut i: usize = 0;
        while i < n
            invariant
                0 <= i <= n,
                n == queue.channels@.len(),
                entries == queue_view(queue),
                entries.len() == n,
                reg == context.registry.channels@,
                limit == context.dgram_max_size as nat,
                queue_sent(v0, reg, entries, limit) is Some,
                Some(send_view(self)) == queue_sent(v0, reg, entries.take(i as int), limit),
                self.message_sequences.remote_view() == old(self).message_sequences.remote_view(),
            decreases n - i,
        {
            proof {
                lemma_queue_sent_prefix(v0, reg, entries, i as int, limit);
                assert(entries.take(i + 1).drop_last() =~= entries.take(i as int));
                assert(entries.take(i + 1).last() == entries[i as int]);
            }
            let channel = queue.channels[i].0;
            let messages = clone_messages(&queue.channels[i].1);
            self.handle_outgoing_iter(context, channel, messages);
            i = i + 1;
        }
        proof {
            assert(entries.take(n as int) =~= entries);
        }
    }

    /// Handles outgoing messages on one channel, in order. Unreliable messages
    /// become datagrams (with a sequence number on sequenced channels),
    /// reliable ones are handed over to streams.
    pub fn handle_outgoing_iter<'a>(
        &'a mut self,
        context: SendContext<'a>,
        channel: u32,
        iter: Vec<Vec<u8>>,
    )
        requires
            channel_sent(
                send_view(old(self)),
                context.registry.channels@,
                channel,
                messages_view(iter@),
                context.dgram_max_size as nat,
            ) is Some,
        ensures
            Some(send_view(final(self))) == channel_sent(
                send_view(old(self)),
                context.registry.channels@,
                channel,
                messages_view(iter@),
                context.dgram_max_size as nat,
            ),
            final(self).message_sequences.remote_view()
                == old(self).message_sequences.remote_view(),
    {
        let config = match context.registry.config(channel) {
            Some(config) => config,
            None => {
                proof {
                    assert(false);
                }
                return ;
            },
        };
        let consistency = config.consistency;
        let ghost v0 = send_view(self);
        let ghost msgs = messages_view(iter@);
        let ghost limit = context.dgram_max_size as nat;
        let n = iter.len();
        let mut i: usize = 0;
        while i < n
            invariant
                0 <= i <= n,
                n == iter@.len(),
                msgs == messages_view(iter@),
                limit == context.dgram_max_size as nat,
                messages_sent(v0, channel, consistency, msgs, limit) is Some,
                Some(send_view(self)) == messages_sent(
                    v0,
                    channel,
                    consistency,
                    msgs.take(i as int),
                    limit,
                ),
                self.message_sequences.remote_view() == old(self).message_sequences.remote_view(),
            decreases n - i,
        {
            proof {
                lemma_messages_sent_prefix(v0, channel, consistency, msgs, i as int, limit);
                assert(msgs.take(i + 1).drop_last() =~= msgs.take(i as int));
                assert(msgs.take(i + 1).last() == msgs[i as int]);
            }
            let message = iter[i].clone();
            proof {
                assert(message@ =~= iter@[i as int]@);
            }
            match consistency {
                MessageConsistency::UnreliableUnordered => {
                    self.handle_outgoing_unrel_unord(context, channel, message);
                },
                MessageConsistency::UnreliableSequenced => {
                    self.handle_outgoing_unrel_seq(context, channel, message);
                },
                MessageConsistency::ReliableUnordered => {
                    self.stream_segment_transient(
                        Segment { header: Header::Stardust { channel }, payload: message },
                    );
                },
                MessageConsistency::ReliableOrdered => {
                    self.stream_segment(
                        StreamTarget::Channel(channel),
                        Segment { header: Header::Stardust { channel }, payload: message },
                    );
                },
            }
            i = i + 1;
        }
        proof {
            assert(msgs.take(n as int) =~= msgs);
        }
    }

    fn handle_outgoing_unrel_unord<'a>(
        &'a mut self,
        context: SendContext<'a>,
        channel: u32,
        message: Vec<u8>,
    )
        requires
            message@.len() + 11 <= isize::MAX,
        ensures
            send_view(final(self)) == segment_sent(
                send_view(old(self)),
                Header::Stardust { channel },
                message@,
                context.dgram_max_size as nat,
            ),
            final(self).message_sequences == old(self).message_sequences,
    {
        let header = Header::Stardust { channel };
        self.send_segment(Segment { header, payload: message }, context.dgram_max_size);
    }

    fn handle_outgoing_unrel_seq<'a>(
        &'a mut self,
        context: SendContext<'a>,
        channel: u32,
        message: Vec<u8>,
    )
        requires
            message@.len() + 11 <= isize::MAX,
        ensures
            ({
                let s = view_sequence(send_view(old(self)), channel);
                let v2 = SendView {
                    local: send_view(old(self)).local.insert(channel, next_seq(s)),
                    ..send_view(old(self))
                };
                send_view(final(self)) == segment_sent(
                    v2,
                    Header::StardustSequenced { channel, sequence: s },
                    message@,
                    context.dgram_max_size as nat,
                )
            }),
            final(self).message_sequences.remote_view()
                == old(self).message_sequences.remote_view(),
    {
        let sequence = self.local_message_sequence(channel);
        let header = Header::StardustSequenced { channel, sequence };
        self.send_segment(Segment { header, payload: message }, context.dgram_max_size);
    }

    /// Draws the next local sequence number of `channel`.
    pub(crate) fn local_message_sequence(&mut self, channel: u32) -> (r: u16)
        ensures
            r == view_sequence(send_view(old(self)), channel),
            final(self).local_sequences() == old(self).local_sequences().insert(
                channel,
                next_seq(r),
            ),
            final(self).message_sequences.remote_view()
                == old(self).message_sequences.remote_view(),
            final(self).events_view() == old(self).events_view(),
            final(self).streams_view() == old(self).streams_view(),
    {
        self.message_sequences.next_local(channel)
    }
}


/// What sending does to the events and stream segments of a send state `v`
/// to give `w`: it only appends to both, and each datagram it appends fits in
/// `limit` bytes.
pub open spec fn sends_within_limit(v: SendView, w: SendView, limit: nat) -> bool {
    &&& v.events.len() <= w.events.len()
    &&& w.events.take(v.events.len() as int) == v.events
    &&& v.streams.len() <= w.streams.len()
    &&& w.streams.take(v.streams.len() as int) == v.streams
    &&& forall|i: int|
        v.events.len() <= i < w.events.len() ==> (#[trigger] w.events[i] matches EventView::TransmitDatagram(
            b,
        ) && b.len() <= limit)
}

/// Sending a channel's messages makes one datagram or one stream segment per
/// message, appended after what was there, and no datagram longer than
/// `limit`: a message whose datagram would be longer goes to a transient
/// stream instead, whatever the channel's consistency.
pub proof fn lemma_datagrams_within_limit(
    v: SendView,
    channel: u32,
    consistency: MessageConsistency,
    messages: Seq<Seq<u8>>,
    limit: nat,
)
    requires
        messages_sent(v, channel, consistency, messages, limit) is Some,
    ensures
        sends_within_limit(
            v,
            messages_sent(v, channel, consistency, messages, limit).unwrap(),
            limit,
        ),
        ({
            let w = messages_sent(v, channel, consistency, messages, limit).unwrap();
            (w.events.len() - v.events.len()) + (w.streams.len() - v.streams.len())
                == messages.len()
        }),
    decreases messages.len(),
{
    if messages.len() == 0 {
        assert(v.events.take(v.events.len() as int) =~= v.events);
        assert(v.streams.take(v.streams.len() as int) =~= v.streams);
    } else {
        let u = messages_sent(v, channel, consistency, messages.drop_last(), limit).unwrap();
        lemma_datagrams_within_limit(v, channel, consistency, messages.drop_last(), limit);
        let m = messages.last();
        let w = messages_sent(v, channel, consistency, messages, limit).unwrap();
        assert(w == message_sent(u, channel, consistency, m, limit).unwrap());
        let h = match consistency {
            MessageConsistency::UnreliableSequenced => Header::StardustSequenced {
                channel,
                sequence: view_sequence(u, channel),
            },
            _ => Header::Stardust { channel },
        };
        lemma_header_size(as_datagram_header(h));
        assert(w.events.len() == u.events.len() || w.events == u.events.push(w.events.last()));
        assert(w.events.take(v.events.len() as int) =~= u.events.take(v.events.len() as int));
        assert(w.streams.take(v.streams.len() as int) =~= u.streams.take(v.streams.len() as int));
        assert forall|i: int| v.events.len() <= i < w.events.len() implies (#[trigger] w.events[i] matches EventView::TransmitDatagram(
            b,
        ) && b.len() <= limit) by {
            if i < u.events.len() {
                assert(w.events[i] == u.events[i]);
            }
        }
    }
}

/// Sending a whole queue only appends to the events and stream segments, and
/// no datagram it makes is longer than `limit`.
pub proof fn lemma_queue_datagrams_within_limit(
    v: SendView,
    registry: Seq<crate::channels::ChannelConfiguration>,
    entries: Seq<(u32, Seq<Seq<u8>>)>,
    limit: nat,
)
    requires
        queue_sent(v, registry, entries, limit) is Some,
    ensures
        sends_within_limit(v, queue_sent(v, registry, entries, limit).unwrap(), limit),
    decreases entries.len(),
{
    if entries.len() == 0 {
        assert(v.events.take(v.events.len() as int) =~= v.events);
        assert(v.streams.take(v.streams.len() as int) =~= v.streams);
    } else {
        let u = queue_sent(v, registry, entries.drop_last(), limit).unwrap();
        lemma_queue_datagrams_within_limit(v, registry, entries.drop_last(), limit);
        let (channel, messages) = entries.last();
        let w = queue_sent(v, registry, entries, limit).unwrap();
        lemma_datagrams_within_limit(
            u,
            channel,
            registry[channel as int].consistency,
            messages,
            limit,
        );
        assert(w.events.take(u.events.len() as int) == u.events);
        assert(w.events.take(v.events.len() as int) =~= u.events.take(v.events.len() as int));
        assert(w.streams.take(v.streams.len() as int) =~= u.streams.take(v.streams.len() as int));
        assert forall|i: int| v.events.len() <= i < w.events.len() implies (#[trigger] w.events[i] matches EventView::TransmitDatagram(
            b,
        ) && b.len() <= limit) by {
            if i < u.events.len() {
                assert(w.events.take(u.events.len() as int)[i] == w.events[i]);
            }
        }
    }
}

} // verus!
