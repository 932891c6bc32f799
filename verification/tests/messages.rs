use stardust_quic::channels::{ChannelConfiguration, ChannelRegistry, MessageConsistency};
use stardust_quic::datagrams::ConnectionEvent;
use stardust_quic::messages::{MessageQueue, MessageSequence, PeerMessages, SendContext};
use stardust_quic::segments::{Connection, Header, Segment, StreamTarget};

fn registry() -> ChannelRegistry {
    ChannelRegistry {
        channels: vec![
            ChannelConfiguration { consistency: MessageConsistency::UnreliableUnordered, priority: 0 },
            ChannelConfiguration { consistency: MessageConsistency::UnreliableSequenced, priority: 0 },
            ChannelConfiguration { consistency: MessageConsistency::ReliableUnordered, priority: 0 },
            ChannelConfiguration { consistency: MessageConsistency::ReliableOrdered, priority: 0 },
        ],
    }
}

#[test]
fn segment_write_parse() {
    let s = Segment { header: Header::StardustSequenced { channel: 1, sequence: 2 }, payload: vec![7, 8] };
    assert_eq!(s.size(), 6);
    let mut buf = Vec::new();
    assert_eq!(s.write(&mut buf), Ok(()));
    assert_eq!(buf, vec![0x04, 0x04, 0x00, 0x02, 7, 8]);
    let p = Segment::parse(&buf).unwrap();
    assert_eq!(p.header, Header::StardustSequenced { channel: 1, sequence: 2 });
    assert_eq!(p.payload, vec![7, 8]);
    assert!(Segment::parse(&[]).is_err());
    assert_eq!(Header::Stardust { channel: 1 }.allocate(), vec![0x00, 0x04]);
}

#[test]
fn message_sequence_starts_at_zero() {
    let mut s = MessageSequence::new();
    assert!(!s.latest(0));
    assert!(s.latest(1));
    assert_eq!(s.next(), 1);
    assert_eq!(s.value(), 2);
}

#[test]
fn outgoing_by_consistency() {
    let reg = registry();
    let ctx = SendContext { registry: &reg, dgram_max_size: 1200 };
    let mut c = Connection::new();
    c.handle_outgoing_iter(ctx, 0, vec![vec![1], vec![2]]);
    c.handle_outgoing_iter(ctx, 1, vec![vec![3], vec![4]]);
    c.handle_outgoing_iter(ctx, 2, vec![vec![5]]);
    c.handle_outgoing_iter(ctx, 3, vec![vec![6]]);
    let dgrams: Vec<Vec<u8>> = c.events.iter().map(|e| match e {
        ConnectionEvent::TransmitDatagram(b) => b.clone(),
        _ => panic!("unexpected event"),
    }).collect();
    assert_eq!(dgrams, vec![
        vec![0x00, 0x00, 1],
        vec![0x00, 0x00, 2],
        vec![0x04, 0x04, 0x00, 0x00, 3],
        vec![0x04, 0x04, 0x00, 0x01, 4],
    ]);
    assert_eq!(c.streams.len(), 2);
    assert_eq!(c.streams[0].target, StreamTarget::Transient);
    assert_eq!(c.streams[0].bytes, vec![0x00, 0x08, 5]);
    assert_eq!(c.streams[1].target, StreamTarget::Channel(3));
    assert_eq!(c.streams[1].bytes, vec![0x00, 0x0c, 6]);
}

#[test]
fn outgoing_oversized_datagram_goes_to_stream() {
    let reg = registry();
    let ctx = SendContext { registry: &reg, dgram_max_size: 4 };
    let mut c = Connection::new();
    c.handle_outgoing_iter(ctx, 0, vec![vec![1, 2, 3]]);
    assert!(c.events.is_empty());
    assert_eq!(c.streams[0].target, StreamTarget::Transient);
    assert_eq!(c.streams[0].bytes, vec![0x00, 0x00, 1, 2, 3]);
}

#[test]
fn outgoing_queue_in_order() {
    let reg = registry();
    let ctx = SendContext { registry: &reg, dgram_max_size: 1200 };
    let mut c = Connection::new();
    let q = PeerMessages { queue: MessageQueue { channels: vec![(1, vec![vec![9]]), (0, vec![vec![8]])] } };
    c.handle_outgoing(ctx, &q);
    assert_eq!(c.events.len(), 2);
    match &c.events[1] {
        ConnectionEvent::TransmitDatagram(b) => assert_eq!(b, &vec![0x00, 0x00, 8]),
        _ => panic!("unexpected event"),
    }
}

#[test]
fn segment_connection_receive() {
    let mut c = Connection::new();
    c.recv_dgram(vec![0x00, 0x04, 42]);
    c.recv_dgram(vec![0x04, 0x04, 0x00, 0x03, 43]);
    assert_eq!(c.events.len(), 2);
    match &c.events[1] {
        ConnectionEvent::ReceivedMessage { channel, message } => {
            assert_eq!(*channel, 1);
            assert_eq!(message, &vec![43]);
        },
        _ => panic!("unexpected event"),
    }
    assert_eq!(c.message_sequences.local.get(&1).map(|s| s.value()), Some(3));
}

#[test]
fn message_sequence_wraps() {
    let mut s = MessageSequence::new();
    for _ in 0..65535 {
        s.next();
    }
    assert_eq!(s.next(), 65535);
    assert_eq!(s.next(), 0);
}
