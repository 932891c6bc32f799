use stardust_quic::driver::{AcceptOutcome, DatagramOutcome, DriverAction, EndpointDriver};
use stardust_quic::endpoint::{ConnectionId, EndpointState, Lifestage};

fn ids(v: &[ConnectionId]) -> Vec<u64> {
    v.iter().map(|c| c.id).collect()
}

#[test]
fn driver_starts_running_and_empty() {
    let d = EndpointDriver::new();
    assert_eq!(d.lifecycle.lifestage, Lifestage::Running);
    assert_eq!(d.lifecycle.published, EndpointState::Running);
    assert!(d.connections.iter().is_empty());
}

#[test]
fn accepted_connection_is_held_and_published() {
    let mut d = EndpointDriver::new();
    assert_eq!(d.accepted(AcceptOutcome::Accepted { handle: 4 }, true, 0), DriverAction::Publish { handle: 4 });
    assert!(d.connections.contains(ConnectionId { id: 4 }));
    assert_eq!(d.accepted(AcceptOutcome::Accepted { handle: 5 }, false, 0), DriverAction::Nothing);
    assert!(!d.connections.contains(ConnectionId { id: 5 }));
}

#[test]
fn refused_connection_sends_its_response() {
    let mut d = EndpointDriver::new();
    assert_eq!(
        d.accepted(AcceptOutcome::Refused { response: Some(40) }, true, 64),
        DriverAction::Transmit { size: 40 }
    );
    assert_eq!(d.accepted(AcceptOutcome::Refused { response: None }, true, 64), DriverAction::Nothing);
    assert!(d.connections.iter().is_empty());
}

#[test]
fn datagrams_are_routed() {
    let mut d = EndpointDriver::new();
    d.accepted(AcceptOutcome::Accepted { handle: 1 }, true, 0);
    assert_eq!(
        d.route_datagram(DatagramOutcome::ConnectionEvent { handle: 1 }, true, 0),
        DriverAction::Forward { handle: 1 }
    );
    assert_eq!(d.route_datagram(DatagramOutcome::NewConnection, true, 0), DriverAction::Accept);
    assert_eq!(d.route_datagram(DatagramOutcome::NewConnection, false, 0), DriverAction::RefuseIncoming);
    assert_eq!(
        d.route_datagram(DatagramOutcome::Response { size: 12 }, true, 20),
        DriverAction::Transmit { size: 12 }
    );
    assert_eq!(d.route_datagram(DatagramOutcome::Nothing, true, 0), DriverAction::Nothing);
}

#[test]
fn connection_events_answered_go_back() {
    let mut d = EndpointDriver::new();
    d.accepted(AcceptOutcome::Accepted { handle: 2 }, true, 0);
    assert_eq!(d.connection_event(2, true), DriverAction::Forward { handle: 2 });
    assert_eq!(d.connection_event(9, false), DriverAction::Nothing);
}

#[test]
fn outgoing_connections() {
    let mut d = EndpointDriver::new();
    assert_eq!(d.outgoing_attempt(None), DriverAction::Refuse);
    assert_eq!(d.outgoing_attempt(Some(3)), DriverAction::Offer { handle: 3 });
    assert_eq!(d.offer_delivered(3, true), DriverAction::Nothing);
    assert!(d.connections.contains(ConnectionId { id: 3 }));
    assert_eq!(d.offer_delivered(6, false), DriverAction::Drain { handle: 6 });
    assert!(!d.connections.contains(ConnectionId { id: 6 }));
}

#[test]
fn removed_connection_is_drained() {
    let mut d = EndpointDriver::new();
    d.offer_delivered(3, true);
    d.offer_delivered(4, true);
    assert_eq!(d.remove_connection(3), DriverAction::Drain { handle: 3 });
    assert_eq!(ids(&d.connections.iter()), vec![4]);
}

#[test]
fn close_signal_reaches_each_connection_once() {
    let mut d = EndpointDriver::new();
    d.offer_delivered(7, true);
    d.offer_delivered(8, true);
    assert_eq!(ids(&d.close_signal(true)), vec![7, 8]);
    assert_eq!(d.lifecycle.lifestage, Lifestage::Closing);
    assert_eq!(d.lifecycle.published, EndpointState::Closing);
    d.offer_delivered(9, true);
    assert!(d.close_signal(true).is_empty());
    assert_eq!(d.lifecycle.lifestage, Lifestage::Closing);
}
