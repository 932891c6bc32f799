use stardust_quic::peers::{PeerAddress, PeerRoute, PeerRouter};

fn addr(port: u16) -> PeerAddress {
    PeerAddress { ip: 0x7f00_0001, port, flowinfo: 0, scope_id: 0 }
}

#[test]
fn new_peer_accepted_once_then_registered() {
    let mut r = PeerRouter::new();
    assert_eq!(r.route(addr(1)), PeerRoute::Accept);
    r.accepted(addr(1));
    assert_eq!(r.route(addr(1)), PeerRoute::Pending);
    assert_eq!(r.route(addr(2)), PeerRoute::Accept);
    r.accepted(addr(2));
    assert_eq!(r.take_pending(), vec![addr(1), addr(2)]);
    assert_eq!(r.route(addr(1)), PeerRoute::Accept);
    r.register(addr(1), 40);
    r.register(addr(2), 41);
    assert_eq!(r.route(addr(1)), PeerRoute::Known { entity: 40 });
    assert_eq!(r.route(addr(2)), PeerRoute::Known { entity: 41 });
    assert_eq!(r.route(addr(3)), PeerRoute::Accept);
}
