use stardust_quic::endpoint::{
    BufferLengthError, ConnectionId, ConnectionOwnershipToken, EndpointConnections,
    EndpointLifecycle, EndpointShared, EndpointState, Lifestage, ownership_conflict,
};

#[test]
fn close_signal_acts_once() {
    let mut l = EndpointLifecycle::new();
    assert!(l.handle_close_signal(true));
    assert_eq!(l.lifestage, Lifestage::Closing);
    assert_eq!(l.published, EndpointState::Closing);
    assert!(!l.handle_close_signal(true));
    assert_eq!(l.lifestage, Lifestage::Closing);
}

#[test]
fn close_without_handle_keeps_published_state() {
    let mut l = EndpointLifecycle::new();
    assert!(l.handle_close_signal(false));
    assert_eq!(l.published, EndpointState::Running);
}

#[test]
fn drop_reports_unclosed() {
    let mut l = EndpointLifecycle::new();
    assert!(l.drop_state(true));
    assert_eq!(l.published, EndpointState::Closed);
    assert!(!l.drop_state(true));
    assert_eq!(EndpointState::from(Lifestage::Closing), EndpointState::Closing);
}

#[test]
fn buffer_lengths() {
    let mut e = EndpointShared::new(true);
    assert_eq!(e.set_recv_buf_len(1279), Err(BufferLengthError::TooSmall));
    assert_eq!(e.recv_size, 1472);
    assert_eq!(e.set_recv_buf_len(1280), Ok(()));
    assert_eq!(e.recv_size, 1280);
    assert_eq!(e.set_send_buf_len(1199), Err(BufferLengthError::TooSmall));
    assert_eq!(e.set_send_buf_len(1500), Ok(()));
    assert_eq!(e.send_size, 1500);
    assert_eq!(e.recv_size, 1280);
}

#[test]
fn connections_set() {
    let mut c = EndpointConnections::new();
    c.register(ConnectionOwnershipToken::new(7));
    c.register(ConnectionOwnershipToken::new(9));
    c.register(ConnectionOwnershipToken::new(7));
    assert_eq!(c.iter(), vec![ConnectionId { id: 7 }, ConnectionId { id: 9 }]);
    assert!(c.contains(ConnectionId { id: 9 }));
    c.deregister(ConnectionId { id: 7 });
    assert!(!c.contains(ConnectionId { id: 7 }));
    assert_eq!(c.iter(), vec![ConnectionId { id: 9 }]);
    let t = ConnectionOwnershipToken::new(3);
    assert_eq!(ConnectionId::from_token(&t), ConnectionId { id: 3 });
    assert_eq!(t.inner(), 3);
}

#[test]
fn ownership_conflicts() {
    assert!(!ownership_conflict(&[], u64::MAX));
    assert!(!ownership_conflict(&[3, 1, 2], u64::MAX));
    assert!(ownership_conflict(&[3, 1, 3], u64::MAX));
    assert!(ownership_conflict(&[5, 7], 5));
    assert!(!ownership_conflict(&[5, 7], 7));
}

#[test]
fn published_state_never_moves_back() {
    let mut l = EndpointLifecycle::new();
    l.handle_close_signal(false);
    assert_eq!(l.published, EndpointState::Running);
    l.drop_state(true);
    assert_eq!(l.published, EndpointState::Closed);
    assert!(!l.handle_close_signal(true));
    assert_eq!(l.published, EndpointState::Closed);
}
