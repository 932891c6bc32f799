use stardust_quic::channels::{ChannelConfiguration, ChannelRegistry, MessageConsistency};
use stardust_quic::reading::{
    open_stream, IncomingStream, IncomingStreamBuffer, IncomingStreamData, StreamErrorCode,
    StreamOpening, StreamPurposeHeader,
};

fn registry(n: usize) -> ChannelRegistry {
    let mut channels = Vec::new();
    for _ in 0..n {
        channels.push(ChannelConfiguration {
            consistency: MessageConsistency::ReliableOrdered,
            priority: 0,
        });
    }
    ChannelRegistry { channels }
}

#[test]
fn stream_buffer_collects() {
    let mut b = IncomingStreamBuffer::with_capacity(4);
    b.insert_back(&[1, 2]);
    b.insert_back(&[3]);
    assert_eq!(b.read_slice(), &[1, 2, 3]);
}

#[test]
fn stream_buffer_remove_nothing_from_empty() {
    let mut b = IncomingStreamBuffer::with_capacity(4);
    let mut scratch = vec![1, 2];
    b.remove_front(&mut scratch, 0);
    assert!(b.read_slice().is_empty());
    assert!(scratch.is_empty());
}

#[test]
fn incoming_stream_default() {
    let s = IncomingStream::default();
    assert!(s.buffer.read_slice().is_empty());
    assert_eq!(s.data, IncomingStreamData::PendingPurpose);
}

#[test]
fn purpose_codes() {
    assert_eq!(StreamPurposeHeader::from_code(0), Some(StreamPurposeHeader::ConnectionManagement));
    assert_eq!(StreamPurposeHeader::from_code(1), Some(StreamPurposeHeader::StardustPayloads));
    assert_eq!(StreamPurposeHeader::from_code(2), Some(StreamPurposeHeader::UctrlStream));
    assert_eq!(StreamPurposeHeader::from_code(3), None);
}

#[test]
fn opening_empty_stream_waits() {
    assert_eq!(open_stream(&[], true, &registry(1)), StreamOpening::Incomplete);
}

#[test]
fn opening_unknown_purpose_rejected() {
    assert_eq!(
        open_stream(&[9, 0, 0], true, &registry(1)),
        StreamOpening::Rejected(StreamErrorCode::InvalidOpeningHeader)
    );
}

#[test]
fn opening_connection_management() {
    assert_eq!(open_stream(&[0, 7], true, &registry(1)), StreamOpening::ConnectionManagement);
    assert_eq!(
        open_stream(&[0], false, &registry(1)),
        StreamOpening::Rejected(StreamErrorCode::InvalidChannelDirection)
    );
}

#[test]
fn opening_payload_stream() {
    assert_eq!(
        open_stream(&[1, 0, 0, 1, 2, 99], true, &registry(300)),
        StreamOpening::StardustPayloads { channel: 258 }
    );
    assert_eq!(
        open_stream(&[1, 0, 0, 1, 2], true, &registry(258)),
        StreamOpening::Rejected(StreamErrorCode::BadStardustChannel)
    );
    assert_eq!(
        open_stream(&[1, 0, 0, 1], true, &registry(300)),
        StreamOpening::Rejected(StreamErrorCode::InvalidOpeningHeader)
    );
    assert_eq!(
        open_stream(&[1, 0, 0, 0, 0], false, &registry(300)),
        StreamOpening::Rejected(StreamErrorCode::InvalidChannelDirection)
    );
}

#[test]
fn read_opening_moves_stream_state() {
    let mut s = IncomingStream::default();
    s.buffer.insert_back(&[1, 0, 0, 0, 3, 42]);
    let (opening, consumed) = s.read_opening(true, &registry(4));
    assert_eq!(opening, StreamOpening::StardustPayloads { channel: 3 });
    assert_eq!(consumed, 5);
    assert_eq!(s.data, IncomingStreamData::StardustPayloads { id: 3 });

    let mut t = IncomingStream::default();
    t.buffer.insert_back(&[0]);
    let (opening, consumed) = t.read_opening(false, &registry(4));
    assert_eq!(opening, StreamOpening::Rejected(StreamErrorCode::InvalidChannelDirection));
    assert_eq!(consumed, 0);
    assert_eq!(
        t.data,
        IncomingStreamData::NeedsClosing { reason: StreamErrorCode::InvalidChannelDirection }
    );
}

#[test]
fn chunks_complete_the_opening_header() {
    let mut s = IncomingStream::default();
    let (opening, consumed) = s.recv_chunk(&[], true, &registry(8));
    assert_eq!(opening, StreamOpening::Incomplete);
    assert_eq!(consumed, 0);
    let (opening, consumed) = s.recv_chunk(&[1, 0, 0, 0, 6, 5], true, &registry(8));
    assert_eq!(opening, StreamOpening::StardustPayloads { channel: 6 });
    assert_eq!(consumed, 5);
    assert_eq!(s.buffer.read_slice(), &[1, 0, 0, 0, 6, 5]);
    assert_eq!(s.data, IncomingStreamData::StardustPayloads { id: 6 });
}
