//! The decisions of an endpoint's driver: what it does with each event it
//! receives, given the connections it holds and where it is in its life.
//! The driver's loop performs the actions and reports what came of them.
use vstd::prelude::*;
use crate::endpoint::{
    close_signal_next,
    lifecycle_wf,
    close_transition,
    ConnectionId,
    ConnectionOwnershipToken,
    EndpointConnections,
    EndpointLifecycle,
    EndpointState,
    Lifestage,
};

verus! {

/// What the QUIC state machine made of a received datagram.
#[derive(Clone, Copy, Debug, PartialEq, Eq, Structural)]
pub enum DatagramOutcome {
    /// An event for the held connection `handle`.
    ConnectionEvent { handle: u64 },
    /// A new incoming connection that can be accepted.
    NewConnection,
    /// A datagram to send back: the first `size` bytes of the scratch buffer.
    Response { size: usize },
    /// Nothing to do.
    Nothing,
}

/// What came of accepting an incoming connection.
#[derive(Clone, Copy, Debug, PartialEq, Eq, Structural)]
pub enum AcceptOutcome {
    /// The connection was accepted under `handle`.
    Accepted { handle: u64 },
    /// The connection was refused; a response of `response` bytes of the
    /// scratch buffer may have to be sent.
    Refused { response: Option<usize> },
}

/// What the driver does next.
#[derive(Clone, Copy, Debug, PartialEq, Eq, Structural)]
pub enum DriverAction {
    Nothing,
    /// Hand the event to connection `handle`.
    Forward { handle: u64 },
    /// Try to accept the new connection.
    Accept,
    /// Refuse the new connection: the endpoint is not listening.
    RefuseIncoming,
    /// Send the first `size` bytes of the scratch buffer.
    Transmit { size: usize },
    /// Connection `handle` is now held: hand it to the user.
    Publish { handle: u64 },
    /// Offer the new outgoing connection `handle` to whoever asked for it.
    Offer { handle: u64 },
    /// Tell whoever asked for an outgoing connection that it was refused.
    Refuse,
    /// Tell the QUIC state machine that connection `handle` is gone.
    Drain { handle: u64 },
}

/// The action for a received datagram, on an endpoint that accepts new
/// connections if `listening`.
pub open spec fn datagram_action(outcome: DatagramOutcome, listening: bool) -> DriverAction {
    match outcome {
        DatagramOutcome::ConnectionEvent { handle } => DriverAction::Forward { handle },
        DatagramOutcome::NewConnection => if listening {
            DriverAction::Accept
        } else {
            DriverAction::RefuseIncoming
        },
        DatagramOutcome::Response { size } => DriverAction::Transmit { size },
        DatagramOutcome::Nothing => DriverAction::Nothing,
    }
}

/// The connections told to close by a close signal that finds the driver in
/// lifestage `l` holding `ids`: all of them if it was running, else none.
pub open spec fn close_targets(l: Lifestage, ids: Seq<u64>) -> Seq<u64> {
    if close_transition(l).1 {
        ids
    } else {
        Seq::empty()
    }
}

/// The driver's own state: its lifecycle and the connections it holds.
pub struct EndpointDriver {
    pub lifecycle: EndpointLifecycle,
    pub connections: EndpointConnections,
}

impl EndpointDriver {
    /// No connection is held twice.
    pub open spec fn wf(&self) -> bool {
        self.connections.wf()
    }

    /// The connections held.
    pub open spec fn held(&self) -> Set<u64> {
        self.connections.id_set()
    }

    /// A running driver holding no connection.
    pub fn new() -> (r: Self)
        ensures
            r.wf(),
            r.held() == Set::<u64>::empty(),
            r.lifecycle.lifestage == Lifestage::Running,
            r.lifecycle.published == EndpointState::Running,
            lifecycle_wf(r.lifecycle),
    {
        let r = EndpointDriver {
            lifecycle: EndpointLifecycle::new(),
            connections: EndpointConnections::new(),
        };
        assert(r.held() =~= Set::<u64>::empty());
        r
    }

    /// Handles a close signal. A running driver starts closing and returns
    /// every held connection, each to be told to close; otherwise the signal
    /// is ignored and nothing is returned.
    pub fn close_signal(&mut self, handle_alive: bool) -> (r: Vec<ConnectionId>)
        requires
            old(self).wf(),
        ensures
            final(self).wf(),
            final(self).connections == old(self).connections,
            final(self).lifecycle.lifestage == close_transition(old(self).lifecycle.lifestage).0,
            final(self).lifecycle == close_signal_next(old(self).lifecycle, handle_alive),
            lifecycle_wf(old(self).lifecycle) ==> lifecycle_wf(final(self).lifecycle),
            old(self).lifecycle.lifestage == Lifestage::Running && handle_alive
                ==> final(self).lifecycle.published == EndpointState::Closing,
            r@.len() == close_targets(
                old(self).lifecycle.lifestage,
                old(self).connections.ids(),
            ).len(),
            forall|i: int|
                0 <= i < r@.len() ==> #[trigger] r@[i].id == close_targets(
                    old(self).lifecycle.lifestage,
                    old(self).connections.ids(),
                )[i],
    {
        if self.lifecycle.handle_close_signal(handle_alive) {
            self.connections.iter()
        } else {
            Vec::new()
        }
    }

    /// Decides what to do with what the QUIC state machine made of a
    /// received datagram, whose processing left `scratch_len` bytes of
    /// scratch space. Events go to the connection they are for, which must
    /// be held; a response must fit in the scratch space; a new connection
    /// is accepted if the endpoint is `listening`, and refused otherwise.
    pub fn route_datagram(&self, outcome: DatagramOutcome, listening: bool, scratch_len: usize) -> (r:
        DriverAction)
        requires
            outcome matches DatagramOutcome::ConnectionEvent { handle } ==> self.held().contains(
                handle,
            ),
            outcome matches DatagramOutcome::Response { size } ==> size <= scratch_len,
        ensures
            r == datagram_action(outcome, listening),
            r matches DriverAction::Forward { handle } ==> self.held().contains(handle),
            r matches DriverAction::Transmit { size } ==> size <= scratch_len,
    {
        match outcome {
            DatagramOutcome::ConnectionEvent { handle } => DriverAction::Forward { handle },
            DatagramOutcome::NewConnection => if listening {
                DriverAction::Accept
            } else {
                DriverAction::RefuseIncoming
            },
            DatagramOutcome::Response { size } => DriverAction::Transmit { size },
            DatagramOutcome::Nothing => DriverAction::Nothing,
        }
    }

    /// Records what came of accepting an incoming connection. An accepted
    /// connection is held and published, unless every handle to the endpoint
    /// is gone, in which case nothing more is done. A refusal sends its
    /// response, if it has one, which must fit in the scratch space.
    pub fn accepted(&mut self, outcome: AcceptOutcome, endpoint_alive: bool, scratch_len: usize) -> (r:
        DriverAction)
        requires
            old(self).wf(),
            outcome matches AcceptOutcome::Refused { response: Some(size) } ==> size
                <= scratch_len,
        ensures
            final(self).wf(),
            final(self).lifecycle == old(self).lifecycle,
            match outcome {
                AcceptOutcome::Accepted { handle } => if endpoint_alive {
                    &&& r == DriverAction::Publish { handle }
                    &&& final(self).held() == old(self).held().insert(handle)
                } else {
                    &&& r == DriverAction::Nothing
                    &&& final(self).connections == old(self).connections
                },
                AcceptOutcome::Refused { response } => {
                    &&& r == match response {
                        Some(size) => DriverAction::Transmit { size },
                        None => DriverAction::Nothing,
                    }
                    &&& final(self).connections == old(self).connections
                },
            },
    {
        match outcome {
            AcceptOutcome::Accepted { handle } => {
                if !endpoint_alive {
                    return DriverAction::Nothing;
                }
                self.connections.register(ConnectionOwnershipToken::new(handle));
                DriverAction::Publish { handle }
            },
            AcceptOutcome::Refused { response } => match response {
                Some(size) => DriverAction::Transmit { size },
                None => DriverAction::Nothing,
            },
        }
    }

    /// Decides what to do with the QUIC state machine's answer to an event of
    /// connection `handle`: an answer goes back to that connection, which
    /// must be held.
    pub fn connection_event(&self, handle: u64, answered: bool) -> (r: DriverAction)
        requires
            answered ==> self.held().contains(handle),
        ensures
            r == if answered {
                DriverAction::Forward { handle }
            } else {
                DriverAction::Nothing
            },
    {
        if answered {
            DriverAction::Forward { handle }
        } else {
            DriverAction::Nothing
        }
    }

    /// Decides what to do with the outcome of opening an outgoing
    /// connection: `Some(handle)` if the QUIC state machine opened it,
    /// `None` if it refused.
    pub fn outgoing_attempt(&self, connected: Option<u64>) -> (r: DriverAction)
        ensures
            r == match connected {
                Some(handle) => DriverAction::Offer { handle },
                None => DriverAction::Refuse,
            },
    {
        match connected {
            Some(handle) => DriverAction::Offer { handle },
            None => DriverAction::Refuse,
        }
    }

    /// Records whether the outgoing connection `handle` reached whoever asked
    /// for it. If it did, it is held; if not, it is drained at once.
    pub fn offer_delivered(&mut self, handle: u64, delivered: bool) -> (r: DriverAction)
        requires
            old(self).wf(),
        ensures
            final(self).wf(),
            final(self).lifecycle == old(self).lifecycle,
            delivered ==> r == DriverAction::Nothing,
            delivered ==> final(self).held() == old(self).held().insert(handle),
            !delivered ==> r == (DriverAction::Drain { handle }),
            !delivered ==> final(self).connections == old(self).connections,
    {
        if delivered {
            self.connections.register(ConnectionOwnershipToken::new(handle));
            DriverAction::Nothing
        } else {
            DriverAction::Drain { handle }
        }
    }

    /// Stops holding connection `handle`, which is then drained.
    pub fn remove_connection(&mut self, handle: u64) -> (r: DriverAction)
        requires
            old(self).wf(),
        ensures
            final(self).wf(),
            final(self).lifecycle == old(self).lifecycle,
            final(self).held() == old(self).held().remove(handle),
            r == (DriverAction::Drain { handle }),
    {
        self.connections.deregister(ConnectionId { id: handle });
        DriverAction::Drain { handle }
    }
}

/// A close signal tells each held connection to close once: a second
/// signal, whatever connections are held by then, tells none.
pub proof fn lemma_close_signal_targets_once(l: Lifestage, first: Seq<u64>, later: Seq<u64>)
    ensures
        close_targets(l, first) == (if l == Lifestage::Running {
            first
        } else {
            Seq::<u64>::empty()
        }),
        close_targets(close_transition(l).0, later) == Seq::<u64>::empty(),
{
}

} // verus!
