//! Objects associated with connection handling.
use crate::address::{canonical, canonical_ip, IpAddr, SocketAddr};
use crate::keyed_list::KeyedList;
use crate::sequences::lemma_push_contains;
use std::ops::Not;
use vstd::prelude::*;
use vstd::std_specs::ops::NotSpecImpl;

verus! {

/// Indicates who was the initiator and who was the responder when the connection was established.
#[derive(Clone, Copy, Debug, PartialEq, Eq, Structural)]
pub enum ConnectionSide {
    /// The side that initiated the connection.
    Initiator,
    /// The side that accepted the connection.
    Responder,
}

impl ConnectionSide {
    /// The other side of the connection.
    pub open spec fn opposite(self) -> ConnectionSide {
        match self {
            ConnectionSide::Initiator => ConnectionSide::Responder,
            ConnectionSide::Responder => ConnectionSide::Initiator,
        }
    }
}

impl NotSpecImpl for ConnectionSide {
    open spec fn obeys_not_spec() -> bool {
        true
    }

    open spec fn not_req(self) -> bool {
        true
    }

    open spec fn not_spec(self) -> ConnectionSide {
        self.opposite()
    }
}

impl Not for ConnectionSide {
    type Output = Self;

    fn not(self) -> Self {
        match self {
            ConnectionSide::Initiator => ConnectionSide::Responder,
            ConnectionSide::Responder => ConnectionSide::Initiator,
        }
    }
}

/// Describes what triggered a disconnect.
///
/// note: Handshake failures do not appear here. A failed handshake prevents the connection
/// from ever being registered, so there is no connection to disconnect.
#[derive(Clone, Copy, Debug, PartialEq, Eq, Hash, Structural)]
pub enum DisconnectOrigin {
    /// The task that sets up the connection terminated abnormally before defusing its cleanup.
    OnConnectAbort,
    /// The reader task for this connection terminated. Typical causes are the peer closing
    /// its end of the socket, a decode error, or no message arriving in time.
    Reading,
    /// The disconnect is part of stopping the node: reconnection is not meaningful.
    Shutdown,
    /// The disconnect was explicitly requested.
    User,
    /// The writer task for this connection terminated. Typical causes are a timeout while
    /// flushing, an underlying socket write error, or the message channel being closed.
    Writing,
}

/// Created for each active connection, together with what its user keeps for it.
#[derive(Debug)]
pub struct Connection<S> {
    /// The address of the connection.
    addr: SocketAddr,
    /// The connection's side in relation to the node.
    side: ConnectionSide,
    /// Statistics covering this connection alone, for as long as it is active.
    stats: S,
}

impl<S> Connection<S> {
    /// The address of the connection.
    pub closed spec fn address(&self) -> SocketAddr {
        self.addr
    }

    /// The connection's side.
    pub closed spec fn end(&self) -> ConnectionSide {
        self.side
    }

    /// The statistics of the connection.
    pub closed spec fn statistics(&self) -> S {
        self.stats
    }

    /// Creates a connection.
    pub fn new(addr: SocketAddr, side: ConnectionSide, stats: S) -> (connection: Self)
        ensures
            connection.address() == addr,
            connection.end() == side,
            connection.statistics() == stats,
    {
        Connection { addr, side, stats }
    }

    /// Returns the address associated with the connection.
    pub fn addr(&self) -> (addr: SocketAddr)
        ensures
            addr == self.address(),
    {
        self.addr
    }

    /// Returns the statistics of this connection.
    pub fn stats(&self) -> (stats: &S)
        ensures
            *stats == self.statistics(),
    {
        &self.stats
    }

    /// Returns `ConnectionSide::Initiator` if the associated peer initiated the connection
    /// and `ConnectionSide::Responder` if the connection request was initiated by the node.
    pub fn side(&self) -> (side: ConnectionSide)
        ensures
            side == self.end(),
    {
        self.side
    }
}

/// The connected addresses that are charged to an IP address.
pub open spec fn charged_to(addrs: Set<SocketAddr>, ip: IpAddr) -> Set<SocketAddr> {
    addrs.filter(|addr: SocketAddr| canonical(addr.ip) == ip)
}

/// A map of all currently connected addresses to their associated connection.
#[derive(Debug)]
pub struct Connections<S> {
    connections: KeyedList<SocketAddr, Connection<S>>,
}

impl<S> View for Connections<S> {
    type V = Map<SocketAddr, Connection<S>>;

    closed spec fn view(&self) -> Map<SocketAddr, Connection<S>> {
        self.connections@
    }
}

impl<S> Default for Connections<S> {
    fn default() -> (connections: Self)
        ensures
            connections.wf(),
            connections@ == Map::<SocketAddr, Connection<S>>::empty(),
    {
        Connections { connections: KeyedList::new() }
    }
}

impl<S> Connections<S> {
    /// No address is connected twice.
    pub closed spec fn wf(&self) -> bool {
        self.connections.wf()
    }

    /// Adds the given connection to the list of active connections.
    pub fn add(&mut self, connection: Connection<S>)
        requires
            old(self).wf(),
        ensures
            final(self).wf(),
            final(self)@ == old(self)@.insert(connection.address(), connection),
    {
        let addr = connection.addr();
        let _ = self.connections.insert(addr, connection);
    }

    /// Returns `true` if the given address is connected.
    pub fn is_connected(&self, addr: SocketAddr) -> (connected: bool)
        requires
            self.wf(),
        ensures
            connected == self@.contains_key(addr),
    {
        self.connections.contains_key(&addr)
    }

    /// Removes the connection associated with the given address.
    pub fn remove(&mut self, addr: SocketAddr) -> (removed: Option<Connection<S>>)
        requires
            old(self).wf(),
        ensures
            final(self).wf(),
            final(self)@ == old(self)@.remove(addr),
            removed == (if old(self)@.contains_key(addr) {
                Some(old(self)@[addr])
            } else {
                None
            }),
    {
        self.connections.remove(&addr)
    }

    /// Returns the number of connected addresses.
    pub fn num_connected(&self) -> (len: usize)
        requires
            self.wf(),
        ensures
            self@.dom().finite(),
            len == self@.dom().len(),
    {
        self.connections.len()
    }

    /// Returns the list of connected addresses.
    pub fn addrs(&self) -> (addrs: Vec<SocketAddr>)
        requires
            self.wf(),
        ensures
            addrs@.no_duplicates(),
            addrs@.to_set() == self@.dom(),
    {
        self.connections.keys()
    }

    /// Returns the stats of the connection with the given address, if it is still active.
    pub fn stats(&self, addr: SocketAddr) -> (stats: Option<&S>)
        requires
            self.wf(),
        ensures
            match stats {
                Some(stats) => self@.contains_key(addr) && *stats == self@[addr].statistics(),
                None => !self@.contains_key(addr),
            },
    {
        match self.connections.get(&addr) {
            Some(connection) => Some(connection.stats()),
            None => None,
        }
    }

    /// Returns the stats of every active connection.
    pub fn stats_snapshot(&self) -> (snapshot: Vec<(SocketAddr, &S)>)
        requires
            self.wf(),
        ensures
            snapshot@.map_values(|entry: (SocketAddr, &S)| entry.0).no_duplicates(),
            snapshot@.map_values(|entry: (SocketAddr, &S)| entry.0).to_set() == self@.dom(),
            forall|i: int|
                0 <= i < snapshot@.len() ==> *(#[trigger] snapshot@[i]).1
                    == self@[snapshot@[i].0].statistics(),
    {
        let addrs: Vec<SocketAddr> = self.connections.keys();
        let mut snapshot: Vec<(SocketAddr, &S)> = Vec::new();
        for i in 0..addrs.len()
            invariant
                self.wf(),
                addrs@.to_set() == self@.dom(),
                snapshot@.len() == i,
                forall|j: int|
                    0 <= j < i ==> {
                        &&& (#[trigger] snapshot@[j]).0 == addrs@[j]
                        &&& *snapshot@[j].1 == self@[addrs@[j]].statistics()
                    },
        {
            let addr: SocketAddr = addrs[i];
            assert(addrs@.to_set().contains(addr));
            if let Some(stats) = self.stats(addr) {
                snapshot.push((addr, stats));
            }
        }
        assert(snapshot@.map_values(|entry: (SocketAddr, &S)| entry.0) =~= addrs@);
        snapshot
    }

    /// Returns the number of active connections charged to the given address' IP.
    ///
    /// note: This is a scan rather than a lookup, as connections are keyed by their full address.
    pub fn num_with_ip(&self, addr: SocketAddr) -> (len: usize)
        requires
            self.wf(),
        ensures
            charged_to(self@.dom(), canonical(addr.ip)).finite(),
            len == charged_to(self@.dom(), canonical(addr.ip)).len(),
    {
        let ip: IpAddr = canonical_ip(addr);
        let addrs: Vec<SocketAddr> = self.connections.keys();
        let mut charged: Vec<SocketAddr> = Vec::new();
        for i in 0..addrs.len()
            invariant
                ip == canonical(addr.ip),
                addrs@.no_duplicates(),
                charged@.no_duplicates(),
                forall|a: SocketAddr| #[trigger]
                    charged@.contains(a) <==> addrs@.take(i as int).contains(a) && canonical(a.ip)
                        == ip,
        {
            let current: SocketAddr = addrs[i];
            let ghost done = addrs@.take(i as int);
            let ghost before = charged@;
            assert(addrs@.take(i + 1) =~= done.push(current));
            proof {
                lemma_push_contains(done, current);
                lemma_push_contains(before, current);
                assert(!done.contains(current));
            }
            let bucket: IpAddr = canonical_ip(current);
            if bucket == ip {
                assert(!before.contains(current));
                charged.push(current);
                assert(charged@.no_duplicates()) by {
                    assert forall|j: int, k: int|
                        0 <= j < charged@.len() && 0 <= k < charged@.len() && j != k implies charged@[j]
                        != charged@[k] by {
                        if j < before.len() {
                            assert(before.contains(before[j]));
                        }
                        if k < before.len() {
                            assert(before.contains(before[k]));
                        }
                    }
                }
            }
        }
        proof {
            assert(addrs@.take(addrs.len() as int) =~= addrs@);
            let counted = charged_to(self@.dom(), ip);
            assert forall|a: SocketAddr| #[trigger]
                charged@.to_set().contains(a) <==> counted.contains(a) by {
                assert(charged@.to_set().contains(a) <==> charged@.contains(a));
                assert(addrs@.to_set().contains(a) <==> addrs@.contains(a));
            }
            assert(charged@.to_set() =~= counted);
            charged@.unique_seq_to_set();
        }
        charged.len()
    }
}

/// The other side of the other side is the side itself, and no side is its own other side.
pub proof fn the_opposite_is_an_involution(side: ConnectionSide)
    ensures
        side.opposite().opposite() == side,
        side.opposite() != side,
{
}

/// A connection counts against the IP addresses of both spellings of its host.
pub proof fn both_spellings_are_charged_alike(addrs: Set<SocketAddr>, left: IpAddr, right: IpAddr)
    requires
        canonical(left) == canonical(right),
    ensures
        charged_to(addrs, canonical(left)) == charged_to(addrs, canonical(right)),
{
}

/// A connected address is charged to the native form of its own IP address and to no other, whatever
/// its port.
pub proof fn an_address_is_charged_to_its_own_host_alone(
    addrs: Set<SocketAddr>,
    addr: SocketAddr,
    ip: IpAddr,
)
    ensures
        charged_to(addrs, ip).contains(addr) <==> addrs.contains(addr) && canonical(addr.ip) == ip,
{
}

/// A connection that is added counts once against its own host, and not against another; one that is
/// removed no longer does.
pub proof fn a_connection_counts_once_against_its_host(
    addrs: Set<SocketAddr>,
    addr: SocketAddr,
    other: SocketAddr,
)
    requires
        addrs.finite(),
        !addrs.contains(addr),
    ensures
        charged_to(addrs.insert(addr), canonical(other.ip)).len() == charged_to(
            addrs,
            canonical(other.ip),
        ).len() + (if canonical(addr.ip) == canonical(other.ip) {
            1int
        } else {
            0int
        }),
        charged_to(addrs.insert(addr).remove(addr), canonical(other.ip)) == charged_to(
            addrs,
            canonical(other.ip),
        ),
{
    let ip = canonical(other.ip);
    let before = charged_to(addrs, ip);
    let after = charged_to(addrs.insert(addr), ip);
    addrs.lemma_len_filter(|addr: SocketAddr| canonical(addr.ip) == ip);
    if canonical(addr.ip) == ip {
        assert(after =~= before.insert(addr));
    } else {
        assert(after =~= before);
    }
    assert(addrs.insert(addr).remove(addr) =~= addrs);
}

} // verus!
