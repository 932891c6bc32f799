//! Endpoint state: the lifecycle of an endpoint's driver, the buffer sizes it
//! uses, and the set of connections it owns.
use vstd::prelude::*;

verus! {

/// Where the endpoint's driver is in its life.
#[derive(Clone, Copy, Debug, PartialEq, Eq, Structural)]
pub enum Lifestage {
    Running,
    Closing,
    Closed,
}

/// The current state of an endpoint, as seen through its handles.
#[derive(Clone, Copy, Debug, PartialEq, Eq, Structural)]
pub enum EndpointState {
    /// The endpoint is currently running.
    /// Dropping all handles will cause data loss.
    Running,
    /// The endpoint is in the process of shutting down.
    /// Dropping all handles may cause data loss.
    Closing,
    /// The endpoint has fully shut down and been drained.
    /// Dropping all handles will not cause data loss.
    Closed,
}

/// The state handles report for a lifestage.
pub open spec fn state_of(l: Lifestage) -> EndpointState {
    match l {
        Lifestage::Running => EndpointState::Running,
        Lifestage::Closing => EndpointState::Closing,
        Lifestage::Closed => EndpointState::Closed,
    }
}

/// How far along its life a lifestage is: running, then closing, then closed.
pub open spec fn stage_rank(l: Lifestage) -> nat {
    match l {
        Lifestage::Running => 0,
        Lifestage::Closing => 1,
        Lifestage::Closed => 2,
    }
}

impl From<Lifestage> for EndpointState {
    fn from(value: Lifestage) -> (r: Self) {
        match value {
            Lifestage::Running => EndpointState::Running,
            Lifestage::Closing => EndpointState::Closing,
            Lifestage::Closed => EndpointState::Closed,
        }
    }
}

impl vstd::std_specs::convert::FromSpecImpl<Lifestage> for EndpointState {
    open spec fn obeys_from_spec() -> bool {
        true
    }

    open spec fn from_spec(v: Lifestage) -> EndpointState {
        state_of(v)
    }
}

/// The lifestage of an endpoint's driver and the state last published to its handles.
pub struct EndpointLifecycle {
    pub lifestage: Lifestage,
    pub published: EndpointState,
}

impl EndpointLifecycle {
    /// A running endpoint.
    pub fn new() -> (r: Self)
        ensures
            r.lifestage == Lifestage::Running,
            r.published == EndpointState::Running,
            lifecycle_wf(r),
    {
        EndpointLifecycle { lifestage: Lifestage::Running, published: EndpointState::Running }
    }

    /// Moves to `lifestage`, and publishes the matching state if a handle is
    /// still alive to read it.
    pub fn update_lifestage(&mut self, lifestage: Lifestage, handle_alive: bool)
        ensures
            handle_alive ==> lifecycle_wf(*final(self)),
            final(self).lifestage == lifestage,
            final(self).published == if handle_alive {
                state_of(lifestage)
            } else {
                old(self).published
            },
    {
        self.lifestage = lifestage;
        if handle_alive {
            self.published = EndpointState::from(lifestage);
        }
    }

    /// Handles a close signal. A running endpoint starts closing and returns
    /// `true`: every connection must then be signalled to close. A closing or
    /// closed endpoint ignores the signal and returns `false`.
    pub fn handle_close_signal(&mut self, handle_alive: bool) -> (r: bool)
        ensures
            (final(self).lifestage, r) == close_transition(old(self).lifestage),
            r ==> final(self).published == (
            if handle_alive {
                EndpointState::Closing
            } else {
                old(self).published
            }),
            !r ==> *final(self) == *old(self),
            *final(self) == close_signal_next(*old(self), handle_alive),
            lifecycle_wf(*old(self)) ==> lifecycle_wf(*final(self)),
    {
        match self.lifestage {
            Lifestage::Running => {},
            Lifestage::Closing | Lifestage::Closed => {
                return false;
            },
        }
        self.update_lifestage(Lifestage::Closing, handle_alive);
        true
    }

    /// The driver's state is being dropped: it becomes closed. Returns `true`
    /// if it was dropped without having been closed first.
    pub fn drop_state(&mut self, handle_alive: bool) -> (r: bool)
        ensures
            r == (old(self).lifestage != Lifestage::Closed),
            *final(self) == drop_next(*old(self), handle_alive),
            lifecycle_wf(*final(self)),
            final(self).lifestage == Lifestage::Closed,
            final(self).published == if handle_alive {
                EndpointState::Closed
            } else {
                old(self).published
            },
    {
        let unclosed = match self.lifestage {
            Lifestage::Running | Lifestage::Closing => true,
            Lifestage::Closed => false,
        };
        self.update_lifestage(Lifestage::Closed, handle_alive);
        unclosed
    }
}

/// The lifestage after a close signal, and whether connections must be told to close.
pub open spec fn close_transition(l: Lifestage) -> (Lifestage, bool) {
    match l {
        Lifestage::Running => (Lifestage::Closing, true),
        _ => (l, false),
    }
}

/// How far along its life a published state is: running, then closing, then closed.
pub open spec fn published_rank(s: EndpointState) -> nat {
    match s {
        EndpointState::Running => 0,
        EndpointState::Closing => 1,
        EndpointState::Closed => 2,
    }
}

/// The lifecycle after a close signal, with a handle alive or not to read it.
pub open spec fn close_signal_next(l: EndpointLifecycle, handle_alive: bool) -> EndpointLifecycle {
    if l.lifestage == Lifestage::Running {
        EndpointLifecycle {
            lifestage: Lifestage::Closing,
            published: if handle_alive {
                EndpointState::Closing
            } else {
                l.published
            },
        }
    } else {
        l
    }
}

/// The lifecycle once the driver's state is dropped.
pub open spec fn drop_next(l: EndpointLifecycle, handle_alive: bool) -> EndpointLifecycle {
    EndpointLifecycle {
        lifestage: Lifestage::Closed,
        published: if handle_alive {
            EndpointState::Closed
        } else {
            l.published
        },
    }
}

/// The published state is never ahead of the lifestage.
pub open spec fn lifecycle_wf(l: EndpointLifecycle) -> bool {
    published_rank(l.published) <= stage_rank(l.lifestage)
}

/// Through the driver's transitions, a close signal and the final drop, the
/// state published to handles never moves back, and once closed it stays
/// closed. Every lifecycle that `EndpointLifecycle::new` starts and these
/// transitions continue meets `lifecycle_wf`, which this law asks for.
pub proof fn lemma_published_never_moves_back(l: EndpointLifecycle, handle_alive: bool)
    requires
        lifecycle_wf(l),
    ensures
        lifecycle_wf(close_signal_next(l, handle_alive)),
        published_rank(l.published) <= published_rank(close_signal_next(l, handle_alive).published),
        lifecycle_wf(drop_next(l, handle_alive)),
        published_rank(l.published) <= published_rank(drop_next(l, handle_alive).published),
        l.published == EndpointState::Closed ==> close_signal_next(l, handle_alive).published
            == EndpointState::Closed && drop_next(l, handle_alive).published
            == EndpointState::Closed,
        lifecycle_wf(EndpointLifecycle {
            lifestage: Lifestage::Running,
            published: EndpointState::Running,
        }),
{
}

/// A close signal never moves an endpoint back, and acts at most once: after
/// one signal, a second one is ignored and leaves the lifestage unchanged.
pub proof fn lemma_close_signal_once(l: Lifestage)
    ensures
        stage_rank(l) <= stage_rank(close_transition(l).0),
        !close_transition(close_transition(l).0).1,
        close_transition(close_transition(l).0).0 == close_transition(l).0,
{
}

/// A unique ID for a connection, the bits of its entity.
#[derive(Clone, Copy, Debug, PartialEq, Eq, Structural)]
pub struct ConnectionId {
    pub id: u64,
}

/// A token of an endpoint 'owning' a connection. Tokens are not cloned, so
/// that one connection has at most one owner.
#[derive(Debug, PartialEq, Eq, Structural)]
pub struct ConnectionOwnershipToken {
    id: u64,
}

impl ConnectionOwnershipToken {
    /// The connection this token stands for.
    pub closed spec fn spec_id(&self) -> u64 {
        self.id
    }

    /// A token for the connection with entity bits `id`.
    pub fn new(id: u64) -> (r: Self)
        ensures
            r.spec_id() == id,
    {
        ConnectionOwnershipToken { id }
    }

    /// The connection's entity bits.
    pub fn inner(&self) -> (r: u64)
        ensures
            r == self.spec_id(),
    {
        self.id
    }
}

impl ConnectionId {
    /// The ID of the connection a token stands for.
    pub fn from_token(value: &ConnectionOwnershipToken) -> (r: Self)
        ensures
            r.id == value.spec_id(),
    {
        ConnectionId { id: value.id }
    }
}

/// Whether claims on connections conflict: some connection is claimed more
/// than once, or the smallest claim equals `placeholder`, the id that stands
/// for no connection and starts the comparison of sorted claims.
pub open spec fn claims_conflict(claims: Seq<u64>, placeholder: u64) -> bool {
    ||| exists|i: int, j: int| 0 <= i < j < claims.len() && claims[i] == claims[j]
    ||| (claims.len() > 0 && forall|k: int|
        0 <= k < claims.len() ==> placeholder <= #[trigger] claims[k]) && claims.contains(
        placeholder,
    )
}

/// Checks the connections claimed by all endpoints together, so that no
/// connection is owned by two endpoints at once. Returns `true` on a conflict.
pub fn ownership_conflict(claims: &[u64], placeholder: u64) -> (r: bool)
    ensures
        r == claims_conflict(claims@, placeholder),
{
    let n = claims.len();
    let mut i: usize = 0;
    while i < n
        invariant
            0 <= i <= n,
            n == claims@.len(),
            forall|a: int, b: int| 0 <= a < i && a < b < n ==> claims@[a] != claims@[b],
        decreases n - i,
    {
        let mut j: usize = i + 1;
        while j < n
            invariant
                i < n,
                i + 1 <= j <= n,
                n == claims@.len(),
                forall|b: int| i < b < j ==> claims@[i as int] != claims@[b],
            decreases n - j,
        {
            if claims[i] == claims[j] {
                return true;
            }
            j = j + 1;
        }
        i = i + 1;
    }
    if n == 0 {
        return false;
    }
    let mut min: u64 = claims[0];
    assert(claims@.take(1)[0] == min);
    let mut k: usize = 1;
    while k < n
        invariant
            1 <= k <= n,
            n == claims@.len(),
            claims@.take(k as int).contains(min),
            forall|m: int| 0 <= m < k ==> min <= #[trigger] claims@[m],
        decreases n - k,
    {
        if claims[k] < min {
            min = claims[k];
        }
        proof {
            assert(claims@.take(k + 1)[k as int] == claims@[k as int]);
            if claims@.take(k as int).contains(min) {
                let w = choose|w: int| 0 <= w < k && claims@.take(k as int)[w] == min;
                assert(claims@.take(k + 1)[w] == min);
            }
        }
        k = k + 1;
    }
    assert(claims@.take(n as int) =~= claims@);
    min == placeholder
}

/// The connections an endpoint owns, each once, in the order they were registered.
pub struct EndpointConnections {
    owned: Vec<u64>,
}

impl EndpointConnections {
    /// The owned connections, oldest first.
    pub closed spec fn ids(&self) -> Seq<u64> {
        self.owned@
    }

    /// The set of owned connections.
    pub open spec fn id_set(&self) -> Set<u64> {
        self.ids().to_set()
    }

    /// No connection is registered twice.
    pub open spec fn wf(&self) -> bool {
        self.ids().no_duplicates()
    }

    /// An endpoint owning no connection.
    pub fn new() -> (r: Self)
        ensures
            r.ids() == Seq::<u64>::empty(),
            r.wf(),
    {
        EndpointConnections { owned: Vec::new() }
    }

    fn position(&self, id: u64) -> (r: Option<usize>)
        ensures
            match r {
                Some(i) => i < self.ids().len() && self.ids()[i as int] == id,
                None => !self.ids().contains(id),
            },
    {
        let n = self.owned.len();
        let mut i: usize = 0;
        while i < n
            invariant
                0 <= i <= n,
                n == self.owned@.len(),
                forall|j: int| 0 <= j < i ==> self.owned@[j] != id,
            decreases n - i,
        {
            if self.owned[i] == id {
                return Some(i);
            }
            i = i + 1;
        }
        None
    }

    /// Records that this endpoint owns the token's connection.
    pub fn register(&mut self, token: ConnectionOwnershipToken)
        requires
            old(self).wf(),
        ensures
            final(self).wf(),
            final(self).id_set() == old(self).id_set().insert(token.spec_id()),
            old(self).ids().contains(token.spec_id()) ==> final(self).ids() == old(self).ids(),
            !old(self).ids().contains(token.spec_id()) ==> final(self).ids() == old(
                self,
            ).ids().push(token.spec_id()),
    {
        let id = token.inner();
        match self.position(id) {
            Some(_) => {
                assert(old(self).id_set().insert(id) =~= old(self).id_set());
            },
            None => {
                self.owned.push(id);
                proof {
                    old(self).ids().lemma_push_to_set_commute(id);
                }
                assert(self.ids().no_duplicates()) by {
                    assert forall|a: int, b: int|
                        0 <= a < b < self.ids().len() implies self.ids()[a] != self.ids()[b] by {
                        if b == self.ids().len() - 1 {
                            assert(old(self).ids().contains(old(self).ids()[a]));
                        }
                    }
                }
            },
        }
    }

    /// Records that this endpoint no longer owns connection `id`.
    pub fn deregister(&mut self, id: ConnectionId)
        requires
            old(self).wf(),
        ensures
            final(self).wf(),
            final(self).id_set() == old(self).id_set().remove(id.id),
    {
        match self.position(id.id) {
            Some(i) => {
                let ghost before = self.owned@;
                self.owned.remove(i);
                assert(self.ids() =~= before.remove(i as int));
                assert(self.ids().no_duplicates()) by {
                    assert forall|a: int, b: int|
                        0 <= a < b < self.ids().len() implies self.ids()[a] != self.ids()[b] by {
                        let a0 = if a < i { a } else { a + 1 };
                        let b0 = if b < i { b } else { b + 1 };
                        assert(before[a0] != before[b0]);
                    }
                }
                assert forall|x: u64| self.id_set().contains(x) <==> old(self).id_set().remove(
                    id.id,
                ).contains(x) by {
                    if self.id_set().contains(x) {
                        let k = choose|k: int| 0 <= k < self.ids().len() && self.ids()[k] == x;
                        let k0 = if k < i { k } else { k + 1 };
                        assert(before[k0] == x);
                        assert(k0 != i);
                    }
                    if old(self).id_set().remove(id.id).contains(x) {
                        let k = choose|k: int| 0 <= k < before.len() && before[k] == x;
                        assert(k != i);
                        let k1 = if k < i { k } else { k - 1 };
                        assert(self.ids()[k1] == x);
                    }
                }
                assert(self.id_set() =~= old(self).id_set().remove(id.id));
            },
            None => {
                assert(old(self).id_set().remove(id.id) =~= old(self).id_set());
            },
        }
    }

    /// Whether this endpoint owns connection `id`.
    pub fn contains(&self, id: ConnectionId) -> (r: bool)
        ensures
            r == self.id_set().contains(id.id),
    {
        self.position(id.id).is_some()
    }

    /// The owned connections, oldest first.
    pub fn iter(&self) -> (r: Vec<ConnectionId>)
        ensures
            r@.len() == self.ids().len(),
            forall|i: int| 0 <= i < r@.len() ==> #[trigger] r@[i].id == self.ids()[i],
    {
        let mut r: Vec<ConnectionId> = Vec::new();
        let n = self.owned.len();
        let mut i: usize = 0;
        while i < n
            invariant
                0 <= i <= n,
                n == self.owned@.len(),
                r@.len() == i,
                forall|j: int| 0 <= j < i ==> #[trigger] r@[j].id == self.owned@[j],
            decreases n - i,
        {
            r.push(ConnectionId { id: self.owned[i] });
            i = i + 1;
        }
        r
    }
}

/// Why a buffer length was refused.
#[derive(Clone, Copy, Debug, PartialEq, Eq, Structural)]
pub enum BufferLengthError {
    /// The length was smaller than the minimum QUIC allows.
    TooSmall,
}

/// The smallest receive buffer QUIC allows.
pub const MIN_RECV_BUF_LEN: usize = 1280;

/// The smallest send buffer QUIC allows.
pub const MIN_SEND_BUF_LEN: usize = 1200;

/// Endpoint state shared with its connections: whether it accepts new
/// connections, the connections it owns, and its I/O buffer sizes.
pub struct EndpointShared {
    /// If `true`, the endpoint will listen for new, incoming connections.
    pub listening: bool,
    pub connections: EndpointConnections,
    pub send_size: usize,
    pub recv_size: usize,
}

impl EndpointShared {
    /// An endpoint owning no connection, with buffers of 1280 bytes for
    /// sending and 1472 bytes for receiving.
    pub fn new(listening: bool) -> (r: Self)
        ensures
            r.listening == listening,
            r.connections.ids() == Seq::<u64>::empty(),
            r.connections.wf(),
            r.send_size == 1280,
            r.recv_size == 1472,
    {
        EndpointShared {
            listening,
            connections: EndpointConnections::new(),
            send_size: 1280,
            recv_size: 1472,
        }
    }

    /// Configures the length of the buffer allocated while receiving UDP packets.
    /// Must be at least `1280` (imposed by the QUIC standard), or an error will occur.
    pub fn set_recv_buf_len(&mut self, len: usize) -> (r: Result<(), BufferLengthError>)
        ensures
            r is Ok <==> len >= MIN_RECV_BUF_LEN,
            r is Ok ==> final(self).recv_size == len,
            r is Err ==> final(self).recv_size == old(self).recv_size,
            final(self).send_size == old(self).send_size,
            final(self).listening == old(self).listening,
            final(self).connections == old(self).connections,
    {
        if len < MIN_RECV_BUF_LEN {
            return Err(BufferLengthError::TooSmall);
        }
        self.recv_size = len;
        Ok(())
    }

    /// Configures the length of the buffer allocated while sending UDP packets.
    /// Must be at least `1200` (imposed by the QUIC standard), or an error will occur.
    pub fn set_send_buf_len(&mut self, len: usize) -> (r: Result<(), BufferLengthError>)
        ensures
            r is Ok <==> len >= MIN_SEND_BUF_LEN,
            r is Ok ==> final(self).send_size == len,
            r is Err ==> final(self).send_size == old(self).send_size,
            final(self).recv_size == old(self).recv_size,
            final(self).listening == old(self).listening,
            final(self).connections == old(self).connections,
    {
        if len < MIN_SEND_BUF_LEN {
            return Err(BufferLengthError::TooSmall);
        }
        self.send_size = len;
        Ok(())
    }
}

} // verus!
