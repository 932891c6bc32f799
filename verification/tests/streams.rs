use stardust_quic::datagrams::header::{DatagramHeader, DatagramPurpose};
use stardust_quic::streams::{
    recv_outcome, try_write_outcome, SendProgress, SendStep, StreamError, StreamRecvOutcome,
    StreamSendOutcome, StreamTryWriteOutcome,
};

#[test]
fn send_progress() {
    let mut p = SendProgress::new(10);
    assert!(p.keep_sending(10));
    assert!(matches!(p.step::<()>(Ok(4)), SendStep::Continue));
    assert!(matches!(p.finish::<()>(), StreamSendOutcome::Partial(4)));
    assert!(matches!(p.step::<()>(Ok(6)), SendStep::Continue));
    assert!(!p.keep_sending(0));
    assert!(matches!(p.finish::<()>(), StreamSendOutcome::Complete));
    assert!(matches!(p.step::<()>(Err(StreamError::Done)), SendStep::Finish(StreamSendOutcome::Blocked)));
    assert!(matches!(p.step::<()>(Err(StreamError::StreamReset(1))), SendStep::Finish(StreamSendOutcome::Stopped)));
    assert!(matches!(p.step(Err(StreamError::Other(5u8))), SendStep::Finish(StreamSendOutcome::Error(5))));
}

#[test]
fn recv_outcomes() {
    let scratch = [1u8, 2, 3, 4];
    assert!(matches!(recv_outcome::<()>(false, &scratch, Ok((2, false))), StreamRecvOutcome::Blocked));
    match recv_outcome::<()>(true, &scratch, Ok((2, false))) {
        StreamRecvOutcome::Chunk(c) => assert_eq!(c, vec![1, 2]),
        _ => panic!("expected a chunk"),
    }
    assert!(matches!(recv_outcome::<()>(true, &scratch, Err(StreamError::Done)), StreamRecvOutcome::Blocked));
    assert!(matches!(recv_outcome::<()>(true, &scratch, Err(StreamError::StreamStopped(3))), StreamRecvOutcome::Error(StreamError::StreamStopped(3))));
}

#[test]
fn try_write_outcomes() {
    assert!(matches!(try_write_outcome::<()>(5, Ok(5)), StreamTryWriteOutcome::Complete));
    assert!(matches!(try_write_outcome::<()>(5, Ok(3)), StreamTryWriteOutcome::Partial(3)));
    assert!(matches!(try_write_outcome::<()>(5, Err(StreamError::Done)), StreamTryWriteOutcome::Blocked));
    assert!(matches!(try_write_outcome(5, Err(StreamError::Other(1u8))), StreamTryWriteOutcome::Error(StreamError::Other(1))));
}

#[test]
fn purpose_header_length() {
    let h = DatagramHeader { purpose: DatagramPurpose::Stardust { channel: 100_000 } };
    assert_eq!(h.purpose.code(), 0);
    assert_eq!(h.encode_len(), 2);
}
