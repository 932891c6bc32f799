use stardust_quic::datagrams::{
    Connection, ConnectionEvent, DatagramBuilder, DatagramHeader, DatagramReceive,
    IncomingDatagramSequence, OutgoingDatagramSequence,
};

#[test]
fn header_bytes_unsequenced() {
    let h = DatagramHeader::Stardust { channel: 5 };
    assert_eq!(h.allocate(), vec![0x00, 0x14]);
    assert_eq!(h.size(), 2);
}

#[test]
fn header_bytes_sequenced() {
    let h = DatagramHeader::StardustSequenced { channel: 5, sequence: 0x0102 };
    assert_eq!(h.allocate(), vec![0x04, 0x14, 0x01, 0x02]);
    assert_eq!(h.size(), 4);
}

#[test]
fn header_bytes_wide_channel() {
    // 300 needs two bytes: (300 << 2) | 1 = 0x04b1, little-endian.
    let h = DatagramHeader::Stardust { channel: 300 };
    assert_eq!(h.allocate(), vec![0x00, 0xb1, 0x04]);
    assert_eq!(h.size(), 3);
    // u32::MAX needs eight bytes.
    let h = DatagramHeader::Stardust { channel: u32::MAX };
    assert_eq!(h.size(), 9);
    assert_eq!(h.allocate().len(), 9);
}

#[test]
fn header_roundtrip_with_trailing_bytes() {
    for h in [
        DatagramHeader::Stardust { channel: 0 },
        DatagramHeader::Stardust { channel: 63 },
        DatagramHeader::Stardust { channel: 64 },
        DatagramHeader::Stardust { channel: 16384 },
        DatagramHeader::Stardust { channel: 1 << 30 },
        DatagramHeader::StardustSequenced { channel: 77, sequence: 65535 },
        DatagramHeader::StardustSequenced { channel: u32::MAX, sequence: 0 },
    ] {
        let mut bytes = h.allocate();
        let n = bytes.len();
        bytes.extend_from_slice(&[9, 9, 9]);
        assert_eq!(DatagramHeader::read(&bytes), Ok((h, n)));
    }
}

#[test]
fn header_read_errors() {
    // empty input
    assert_eq!(DatagramHeader::read(&[]), Err(()));
    // unknown purpose code 2
    assert_eq!(DatagramHeader::read(&[0x08, 0x14]), Err(()));
    // channel missing
    assert_eq!(DatagramHeader::read(&[0x00]), Err(()));
    // channel varint announces two bytes but only one follows
    assert_eq!(DatagramHeader::read(&[0x00, 0x01]), Err(()));
    // sequenced header without the two sequence bytes
    assert_eq!(DatagramHeader::read(&[0x04, 0x14, 0x01]), Err(()));
    // channel larger than u32::MAX: eight-byte varint of 2^32
    let mut big = vec![0x00];
    let v: u64 = (1u64 << 32) << 2 | 3;
    big.extend_from_slice(&v.to_le_bytes());
    assert_eq!(DatagramHeader::read(&big), Err(()));
}

#[test]
fn header_write_appends() {
    let mut buf = vec![1, 2, 3];
    let h = DatagramHeader::StardustSequenced { channel: 1, sequence: 7 };
    assert_eq!(h.write(&mut buf), Ok(()));
    assert_eq!(buf, vec![1, 2, 3, 0x04, 0x04, 0x00, 0x07]);
}

#[test]
fn builder_and_receive() {
    let payload = [10u8, 20, 30];
    let b = DatagramBuilder { header: DatagramHeader::Stardust { channel: 2 }, payload: &payload };
    assert_eq!(b.size(), 5);
    let mut buf = Vec::new();
    assert_eq!(b.write(&mut buf), Ok(()));
    assert_eq!(buf, vec![0x00, 0x08, 10, 20, 30]);
    let r = DatagramReceive::parse(&buf).unwrap();
    assert_eq!(r.header, DatagramHeader::Stardust { channel: 2 });
    assert_eq!(r.payload, vec![10, 20, 30]);
    assert!(DatagramReceive::parse(&[0x0c]).is_err());
}

#[test]
fn incoming_sequence_wraps() {
    let mut s = IncomingDatagramSequence::new();
    assert_eq!(s.value(), u16::MAX);
    assert!(s.latest(0));
    assert!(!s.latest(0));
    assert!(s.latest(5));
    assert!(!s.latest(4));
    // more than half the range behind counts as older
    assert!(!s.latest(5 + 32769));
    assert!(s.latest(5 + 32768));
    assert_eq!(s.value(), 32773);
}

#[test]
fn outgoing_sequence_counts() {
    let mut s = OutgoingDatagramSequence::new();
    assert_eq!(s.next(), 0);
    assert_eq!(s.next(), 1);
    assert_eq!(s.value(), 2);
}

#[test]
fn sender_numbers_accepted_in_order() {
    let mut out = OutgoingDatagramSequence::new();
    let mut inc = IncomingDatagramSequence::new();
    for _ in 0..1000 {
        let v = out.next();
        assert!(inc.latest(v));
        assert!(!inc.latest(v));
    }
}

#[test]
fn connection_send_then_receive() {
    let mut sender = Connection::new();
    let mut receiver = Connection::new();
    let payload = b"hello".to_vec();
    sender.send_dgram(
        DatagramBuilder { header: DatagramHeader::Stardust { channel: 3 }, payload: &payload },
        1200,
    );
    assert_eq!(sender.events.len(), 1);
    let bytes = match &sender.events[0] {
        ConnectionEvent::TransmitDatagram(b) => b.clone(),
        other => panic!("unexpected event {:?}", other),
    };
    receiver.recv_dgram(bytes);
    match &receiver.events[0] {
        ConnectionEvent::ReceivedMessage { channel, message } => {
            assert_eq!(*channel, 3);
            assert_eq!(message, &payload);
        },
        other => panic!("unexpected event {:?}", other),
    }
}

#[test]
fn connection_sequenced_receive() {
    let mut sender = Connection::new();
    let mut receiver = Connection::new();
    for i in 0..3u8 {
        let seq = sender.channel_dgram_out_seq(9);
        assert_eq!(seq, i as u16);
        let payload = vec![i];
        sender.send_dgram(
            DatagramBuilder {
                header: DatagramHeader::StardustSequenced { channel: 9, sequence: seq },
                payload: &payload,
            },
            1200,
        );
    }
    for e in sender.events.drain(..) {
        match e {
            ConnectionEvent::TransmitDatagram(b) => receiver.recv_dgram(b),
            _ => panic!("unexpected event"),
        }
    }
    assert_eq!(receiver.events.len(), 3);
    assert_eq!(receiver.incoming_sequence(9), Some(2));
    assert_eq!(receiver.incoming_sequence(8), None);
}

#[test]
fn connection_oversized_goes_over_stream() {
    let mut c = Connection::new();
    let payload = vec![0u8; 100];
    c.send_dgram(
        DatagramBuilder { header: DatagramHeader::Stardust { channel: 1 }, payload: &payload },
        50,
    );
    assert!(c.events.is_empty());
    assert_eq!(c.over_stream.len(), 1);
    assert_eq!(c.over_stream[0].len(), 102);
    assert_eq!(&c.over_stream[0][..2], &[0x00, 0x04]);
}

#[test]
fn outgoing_sequence_wraps() {
    let mut s = OutgoingDatagramSequence::new();
    for _ in 0..65535 {
        s.next();
    }
    assert_eq!(s.next(), 65535);
    assert_eq!(s.next(), 0);
    assert_eq!(s.value(), 1);
}

#[test]
fn sender_numbers_accepted_across_wrap() {
    let mut out = OutgoingDatagramSequence::new();
    let mut inc = IncomingDatagramSequence::new();
    for _ in 0..70000 {
        let v = out.next();
        assert!(inc.latest(v));
    }
}
