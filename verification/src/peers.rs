//! Routing received packets to peers by their address: packets from a known
//! peer go to its connection, packets from an address first seen in this
//! round go to the connection accepted for it, and any other address is
//! accepted once. Peers accepted in a round are registered at its end.
use vstd::prelude::*;

verus! {

/// A peer's socket address: the IP address (IPv4 addresses mapped into
/// IPv6), the port, and the IPv6 flow label and scope.
#[derive(Clone, Copy, Debug, PartialEq, Eq, Structural)]
pub struct PeerAddress {
    pub ip: u128,
    pub port: u16,
    pub flowinfo: u32,
    pub scope_id: u32,
}

/// Where a packet goes.
#[derive(Clone, Copy, Debug, PartialEq, Eq, Structural)]
pub enum PeerRoute {
    /// To the connection of the known peer `entity`.
    Known { entity: u64 },
    /// To the connection accepted for this address earlier in the round.
    Pending,
    /// A new peer: accept a connection for it.
    Accept,
}

/// The peers an endpoint knows and those it accepted in the current round.
pub struct PeerRouter {
    known: Vec<(PeerAddress, u64)>,
    pending: Vec<PeerAddress>,
}

/// The route for a packet from `addr`, given the known peers and the
/// addresses accepted in this round.
pub open spec fn route_of(
    known: Seq<(PeerAddress, u64)>,
    pending: Seq<PeerAddress>,
    addr: PeerAddress,
) -> PeerRoute {
    if exists|i: int| 0 <= i < known.len() && #[trigger] known[i].0 == addr {
        PeerRoute::Known {
            entity: known[choose|i: int| 0 <= i < known.len() && #[trigger] known[i].0 == addr].1,
        }
    } else if pending.contains(addr) {
        PeerRoute::Pending
    } else {
        PeerRoute::Accept
    }
}

impl PeerRouter {
    /// The known peers and their entities, in the order they were registered.
    pub closed spec fn known(&self) -> Seq<(PeerAddress, u64)> {
        self.known@
    }

    /// The addresses accepted in this round, in the order they were accepted.
    pub closed spec fn pending(&self) -> Seq<PeerAddress> {
        self.pending@
    }

    /// Each address is known at most once, accepted at most once, and never both.
    pub open spec fn wf(&self) -> bool {
        &&& forall|i: int, j: int|
            0 <= i < j < self.known().len() ==> #[trigger] self.known()[i].0
                != #[trigger] self.known()[j].0
        &&& self.pending().no_duplicates()
        &&& forall|i: int, j: int|
            0 <= i < self.known().len() && 0 <= j < self.pending().len() ==> #[trigger] self.known()[i].0
                != #[trigger] self.pending()[j]
    }

    /// No peer known, none accepted.
    pub fn new() -> (r: Self)
        ensures
            r.wf(),
            r.known() == Seq::<(PeerAddress, u64)>::empty(),
            r.pending() == Seq::<PeerAddress>::empty(),
    {
        PeerRouter { known: Vec::new(), pending: Vec::new() }
    }

    fn known_index(&self, addr: PeerAddress) -> (r: Option<usize>)
        ensures
            match r {
                Some(i) => i < self.known().len() && self.known()[i as int].0 == addr,
                None => forall|i: int| 0 <= i < self.known().len() ==> #[trigger] self.known()[i].0 != addr,
            },
    {
        let n = self.known.len();
        let mut i: usize = 0;
        while i < n
            invariant
                0 <= i <= n,
                n == self.known@.len(),
                forall|j: int| 0 <= j < i ==> #[trigger] self.known@[j].0 != addr,
            decreases n - i,
        {
            if self.known[i].0 == addr {
                return Some(i);
            }
            i = i + 1;
        }
        None
    }

    fn pending_index(&self, addr: PeerAddress) -> (r: Option<usize>)
        ensures
            match r {
                Some(i) => i < self.pending().len() && self.pending()[i as int] == addr,
                None => !self.pending().contains(addr),
            },
    {
        let n = self.pending.len();
        let mut i: usize = 0;
        while i < n
            invariant
                0 <= i <= n,
                n == self.pending@.len(),
                forall|j: int| 0 <= j < i ==> self.pending@[j] != addr,
            decreases n - i,
        {
            if self.pending[i] == addr {
                return Some(i);
            }
            i = i + 1;
        }
        None
    }

    /// Where a packet from `addr` goes: to a known peer's connection, to the
    /// connection accepted for it in this round, or to a new connection.
    pub fn route(&self, addr: PeerAddress) -> (r: PeerRoute)
        requires
            self.wf(),
        ensures
            r == route_of(self.known(), self.pending(), addr),
    {
        match self.known_index(addr) {
            Some(i) => {
                let entity = self.known[i].1;
                proof {
                    let c = choose|k: int| 0 <= k < self.known().len() && #[trigger] self.known()[k].0
                        == addr;
                    if c != i {
                        assert(self.known()[c].0 == self.known()[i as int].0);
                    }
                }
                PeerRoute::Known { entity }
            },
            None => {
                if self.pending_index(addr).is_some() {
                    PeerRoute::Pending
                } else {
                    PeerRoute::Accept
                }
            },
        }
    }

    /// Records that a connection was accepted for the new peer `addr`.
    pub fn accepted(&mut self, addr: PeerAddress)
        requires
            old(self).wf(),
            route_of(old(self).known(), old(self).pending(), addr) == PeerRoute::Accept,
        ensures
            final(self).wf(),
            final(self).known() == old(self).known(),
            final(self).pending() == old(self).pending().push(addr),
    {
        self.pending.push(addr);
        proof {
            assert forall|i: int, j: int|
                0 <= i < self.known().len() && 0 <= j < self.pending().len() implies #[trigger] self.known()[i].0
                    != #[trigger] self.pending()[j] by {
                if j == self.pending().len() - 1 {
                    if self.known()[i].0 == addr {
                        assert(exists|k: int| 0 <= k < self.known().len() && #[trigger] self.known()[k].0 == addr);
                    }
                } else {
                    assert(self.pending()[j] == old(self).pending()[j]);
                }
            }
            assert forall|a: int, b: int|
                0 <= a < b < self.pending().len() implies self.pending()[a] != self.pending()[b] by {
                if b == self.pending().len() - 1 {
                    assert(old(self).pending().contains(old(self).pending()[a]));
                }
            }
        }
    }

    /// Ends the round: the accepted addresses, oldest first, are handed out
    /// to be registered, and none remains pending.
    pub fn take_pending(&mut self) -> (r: Vec<PeerAddress>)
        requires
            old(self).wf(),
        ensures
            final(self).wf(),
            r@ == old(self).pending(),
            final(self).known() == old(self).known(),
            final(self).pending() == Seq::<PeerAddress>::empty(),
    {
        let mut r: Vec<PeerAddress> = Vec::new();
        std::mem::swap(&mut r, &mut self.pending);
        assert(self.pending() =~= Seq::<PeerAddress>::empty());
        assert(self.known() == old(self).known());
        assert(self.pending().no_duplicates());
        r
    }

    /// Registers the peer at `addr`, not known yet, as `entity`.
    pub fn register(&mut self, addr: PeerAddress, entity: u64)
        requires
            old(self).wf(),
            !old(self).pending().contains(addr),
            forall|i: int| 0 <= i < old(self).known().len() ==> #[trigger] old(self).known()[i].0 != addr,
        ensures
            final(self).wf(),
            final(self).known() == old(self).known().push((addr, entity)),
            final(self).pending() == old(self).pending(),
    {
        self.known.push((addr, entity));
        proof {
            assert forall|i: int, j: int|
                0 <= i < j < self.known().len() implies #[trigger] self.known()[i].0
                    != #[trigger] self.known()[j].0 by {
                if j == self.known().len() - 1 {
                    assert(old(self).known()[i].0 != addr);
                } else {
                    assert(self.known()[i] == old(self).known()[i]);
                    assert(self.known()[j] == old(self).known()[j]);
                }
            }
            assert forall|i: int, j: int|
                0 <= i < self.known().len() && 0 <= j < self.pending().len() implies #[trigger] self.known()[i].0
                    != #[trigger] self.pending()[j] by {
                if i == self.known().len() - 1 {
                    assert(self.pending().contains(self.pending()[j]));
                } else {
                    assert(self.known()[i] == old(self).known()[i]);
                }
            }
        }
    }
}

/// Within a round, a new address is accepted once: after it is accepted,
/// later packets from it go to the connection accepted for it; after it is
/// registered, they go to its entity.
pub proof fn lemma_accepted_once(
    known: Seq<(PeerAddress, u64)>,
    pending: Seq<PeerAddress>,
    addr: PeerAddress,
    entity: u64,
)
    requires
        route_of(known, pending, addr) == PeerRoute::Accept,
    ensures
        route_of(known, pending.push(addr), addr) == PeerRoute::Pending,
        route_of(known.push((addr, entity)), pending, addr) == (PeerRoute::Known { entity }),
{
    assert(pending.push(addr)[pending.len() as int] == addr);
    let k2 = known.push((addr, entity));
    assert(k2[known.len() as int].0 == addr);
    let c = choose|i: int| 0 <= i < k2.len() && #[trigger] k2[i].0 == addr;
    if c < known.len() {
        assert(known[c].0 == addr);
        assert(exists|i: int| 0 <= i < known.len() && #[trigger] known[i].0 == addr);
    }
}


/// A packet goes to a known peer only if that peer's address equals the
/// packet's in every field, and then to that peer's entity; a packet from an
/// address equal to a known one always goes to a known peer; one from an
/// address neither known nor accepted in this round is accepted as new.
pub proof fn lemma_route_by_address(
    known: Seq<(PeerAddress, u64)>,
    pending: Seq<PeerAddress>,
    addr: PeerAddress,
)
    ensures
        route_of(known, pending, addr) matches PeerRoute::Known { entity } ==> exists|i: int|
            0 <= i < known.len() && known[i].0.ip == addr.ip && known[i].0.port == addr.port
                && known[i].0.flowinfo == addr.flowinfo && known[i].0.scope_id == addr.scope_id
                && #[trigger] known[i].1 == entity,
        (exists|i: int| 0 <= i < known.len() && #[trigger] known[i].0 == addr) ==> route_of(
            known,
            pending,
            addr,
        ) is Known,
        (forall|i: int| 0 <= i < known.len() ==> #[trigger] known[i].0 != addr) ==> route_of(
            known,
            pending,
            addr,
        ) == if pending.contains(addr) {
            PeerRoute::Pending
        } else {
            PeerRoute::Accept
        },
{
    if route_of(known, pending, addr) is Known {
        let c = choose|i: int| 0 <= i < known.len() && #[trigger] known[i].0 == addr;
        assert(known[c].0 == addr);
    }
}

} // verus!
