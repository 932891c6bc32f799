//! A builder for endpoints, which only offers each step once the steps before
//! it are done: choose a side, then a socket, application protocols, trust
//! anchors and, for sides that accept connections, credentials.
use vstd::prelude::*;
use std::marker::PhantomData;

verus! {

/// A type annotation indicating an endpoint that can act as both a [`Server`] and [`Client`].
/// Used by [`EndpointBuilder`].
pub enum Dual {
    /// A marker has no values.
    Never(core::convert::Infallible),
}

/// A type annotation indicating a server.
/// Used by [`EndpointBuilder`].
pub enum Server {
    /// A marker has no values.
    Never(core::convert::Infallible),
}

/// A type annotation indicating a client.
/// Used by [`EndpointBuilder`].
pub enum Client {
    /// A marker has no values.
    Never(core::convert::Infallible),
}

/// A builder for an endpoint, for side `Side`, at step `State`.
pub struct EndpointBuilder<Side, State> {
    side: PhantomData<Side>,
    state: State,
}

impl<Side, State> EndpointBuilder<Side, State> {
    /// What the builder holds so far.
    pub closed spec fn spec_state(&self) -> State {
        self.state
    }

    /// What the builder holds so far.
    pub fn into_state(self) -> (r: State)
        ensures
            r == self.spec_state(),
    {
        self.state
    }
}

/// The first step: a socket is wanted.
pub struct WantsSocket {
    _hidden: (),
}

impl EndpointBuilder<(), ()> {
    /// Create an `EndpointBuilder` that can act as both a client and server.
    pub fn dual() -> (r: EndpointBuilder<Dual, WantsSocket>) {
        EndpointBuilder { side: PhantomData, state: WantsSocket { _hidden: () } }
    }

    /// Create an `EndpointBuilder` for a server.
    pub fn server() -> (r: EndpointBuilder<Server, WantsSocket>) {
        EndpointBuilder { side: PhantomData, state: WantsSocket { _hidden: () } }
    }

    /// Create an `EndpointBuilder` for a client.
    pub fn client() -> (r: EndpointBuilder<Client, WantsSocket>) {
        EndpointBuilder { side: PhantomData, state: WantsSocket { _hidden: () } }
    }
}

impl<Side> EndpointBuilder<Side, WantsSocket> {
    /// Use an existing socket, already set to non-blocking mode.
    pub fn with_socket<Socket>(self, socket: Socket) -> (r: EndpointBuilder<
        Side,
        WantsProtos<Socket>,
    >)
        ensures
            r.spec_state().spec_socket() == socket,
    {
        EndpointBuilder { side: PhantomData, state: WantsProtos { socket } }
    }
}

/// The second step: application protocols are wanted.
pub struct WantsProtos<Socket> {
    socket: Socket,
}

impl<Socket> WantsProtos<Socket> {
    /// The chosen socket.
    pub closed spec fn spec_socket(&self) -> Socket {
        self.socket
    }
}

impl<Side, Socket> EndpointBuilder<Side, WantsProtos<Socket>> {
    /// Use a pre-existing set of application protocols.
    pub fn with_protos<Protos>(self, protos: Protos) -> (r: EndpointBuilder<
        Side,
        WantsTrustAnchors<Socket, Protos>,
    >)
        ensures
            r.spec_state().spec_socket() == self.spec_state().spec_socket(),
            r.spec_state().spec_protos() == protos,
    {
        EndpointBuilder {
            side: PhantomData,
            state: WantsTrustAnchors { socket: self.state.socket, protos },
        }
    }
}

/// The third step: trust anchors are wanted.
pub struct WantsTrustAnchors<Socket, Protos> {
    socket: Socket,
    protos: Protos,
}

impl<Socket, Protos> WantsTrustAnchors<Socket, Protos> {
    /// The chosen socket.
    pub closed spec fn spec_socket(&self) -> Socket {
        self.socket
    }

    /// The chosen application protocols.
    pub closed spec fn spec_protos(&self) -> Protos {
        self.protos
    }
}

/// What every finished builder holds.
pub struct ReadyShared<Socket, Protos, Anchors> {
    pub socket: Socket,
    pub protos: Protos,
    pub anchors: Anchors,
    _hidden: (),
}

impl<Socket, Protos, Anchors> ReadyShared<Socket, Protos, Anchors> {
    /// The chosen socket.
    pub closed spec fn spec_socket(&self) -> Socket {
        self.socket
    }

    /// The chosen application protocols.
    pub closed spec fn spec_protos(&self) -> Protos {
        self.protos
    }

    /// The chosen trust anchors.
    pub closed spec fn spec_anchors(&self) -> Anchors {
        self.anchors
    }
}

/// What a finished builder of an endpoint that accepts connections holds.
pub struct HostShared<Credentials> {
    pub credentials: Credentials,
    _hidden: (),
}

impl<Credentials> HostShared<Credentials> {
    /// The chosen credentials.
    pub closed spec fn spec_credentials(&self) -> Credentials {
        self.credentials
    }
}

/// What a finished builder of an endpoint that makes connections holds.
pub struct JoinShared {
    _hidden: (),
}

impl<Socket, Protos> EndpointBuilder<Dual, WantsTrustAnchors<Socket, Protos>> {
    /// Use a pre-existing trust anchor store.
    pub fn with_trust_anchors<Anchors>(self, anchors: Anchors) -> (r: EndpointBuilder<
        Dual,
        WantsCredentials<Socket, Protos, Anchors>,
    >)
        ensures
            r.spec_state().spec_socket() == self.spec_state().spec_socket(),
            r.spec_state().spec_protos() == self.spec_state().spec_protos(),
            r.spec_state().spec_anchors() == anchors,
    {
        EndpointBuilder {
            side: PhantomData,
            state: WantsCredentials {
                socket: self.state.socket,
                protos: self.state.protos,
                anchors,
            },
        }
    }
}

impl<Socket, Protos> EndpointBuilder<Server, WantsTrustAnchors<Socket, Protos>> {
    /// Use a pre-existing trust anchor store.
    pub fn with_trust_anchors<Anchors>(self, anchors: Anchors) -> (r: EndpointBuilder<
        Server,
        WantsCredentials<Socket, Protos, Anchors>,
    >)
        ensures
            r.spec_state().spec_socket() == self.spec_state().spec_socket(),
            r.spec_state().spec_protos() == self.spec_state().spec_protos(),
            r.spec_state().spec_anchors() == anchors,
    {
        EndpointBuilder {
            side: PhantomData,
            state: WantsCredentials {
                socket: self.state.socket,
                protos: self.state.protos,
                anchors,
            },
        }
    }
}

impl<Socket, Protos> EndpointBuilder<Client, WantsTrustAnchors<Socket, Protos>> {
    /// Use a pre-existing trust anchor store; a client needs nothing more.
    pub fn with_trust_anchors<Anchors>(self, anchors: Anchors) -> (r: EndpointBuilder<
        Client,
        ClientReady<Socket, Protos, Anchors>,
    >)
        ensures
            r.spec_state().shared.spec_socket() == self.spec_state().spec_socket(),
            r.spec_state().shared.spec_protos() == self.spec_state().spec_protos(),
            r.spec_state().shared.spec_anchors() == anchors,
    {
        EndpointBuilder {
            side: PhantomData,
            state: ClientReady {
                shared: ReadyShared {
                    socket: self.state.socket,
                    protos: self.state.protos,
                    anchors,
                    _hidden: (),
                },
                join: JoinShared { _hidden: () },
            },
        }
    }
}

/// The fourth step of a side that accepts connections: credentials are wanted.
pub struct WantsCredentials<Socket, Protos, Anchors> {
    socket: Socket,
    protos: Protos,
    anchors: Anchors,
}

impl<Socket, Protos, Anchors> WantsCredentials<Socket, Protos, Anchors> {
    /// The chosen socket.
    pub closed spec fn spec_socket(&self) -> Socket {
        self.socket
    }

    /// The chosen application protocols.
    pub closed spec fn spec_protos(&self) -> Protos {
        self.protos
    }

    /// The chosen trust anchors.
    pub closed spec fn spec_anchors(&self) -> Anchors {
        self.anchors
    }
}

impl<Socket, Protos, Anchors> EndpointBuilder<Dual, WantsCredentials<Socket, Protos, Anchors>> {
    /// Use a pre-existing set of credentials.
    pub fn with_credentials<Credentials>(self, credentials: Credentials) -> (r: EndpointBuilder<
        Dual,
        DualReady<Socket, Protos, Anchors, Credentials>,
    >)
        ensures
            r.spec_state().shared.spec_socket() == self.spec_state().spec_socket(),
            r.spec_state().shared.spec_protos() == self.spec_state().spec_protos(),
            r.spec_state().shared.spec_anchors() == self.spec_state().spec_anchors(),
            r.spec_state().host.spec_credentials() == credentials,
    {
        EndpointBuilder {
            side: PhantomData,
            state: DualReady {
                shared: ReadyShared {
                    socket: self.state.socket,
                    protos: self.state.protos,
                    anchors: self.state.anchors,
                    _hidden: (),
                },
                host: HostShared { credentials, _hidden: () },
                join: JoinShared { _hidden: () },
            },
        }
    }
}

impl<Socket, Protos, Anchors> EndpointBuilder<Server, WantsCredentials<Socket, Protos, Anchors>> {
    /// Use a pre-existing set of credentials.
    pub fn with_credentials<Credentials>(self, credentials: Credentials) -> (r: EndpointBuilder<
        Server,
        ServerReady<Socket, Protos, Anchors, Credentials>,
    >)
        ensures
            r.spec_state().shared.spec_socket() == self.spec_state().spec_socket(),
            r.spec_state().shared.spec_protos() == self.spec_state().spec_protos(),
            r.spec_state().shared.spec_anchors() == self.spec_state().spec_anchors(),
            r.spec_state().host.spec_credentials() == credentials,
    {
        EndpointBuilder {
            side: PhantomData,
            state: ServerReady {
                shared: ReadyShared {
                    socket: self.state.socket,
                    protos: self.state.protos,
                    anchors: self.state.anchors,
                    _hidden: (),
                },
                host: HostShared { credentials, _hidden: () },
            },
        }
    }
}

/// A finished builder of an endpoint that both accepts and makes connections.
pub struct DualReady<Socket, Protos, Anchors, Credentials> {
    pub shared: ReadyShared<Socket, Protos, Anchors>,
    pub host: HostShared<Credentials>,
    pub join: JoinShared,
}

/// A finished builder of an endpoint that accepts connections.
pub struct ServerReady<Socket, Protos, Anchors, Credentials> {
    pub shared: ReadyShared<Socket, Protos, Anchors>,
    pub host: HostShared<Credentials>,
}

/// A finished builder of an endpoint that makes connections.
pub struct ClientReady<Socket, Protos, Anchors> {
    pub shared: ReadyShared<Socket, Protos, Anchors>,
    pub join: JoinShared,
}

} // verus!
