//! The decisions of a connection handler: which connections it holds, when
//! it opens one to send, when their inactivity timeouts restart, and whether
//! it may start to listen.
use crate::server_id::SocketAddress;
use vstd::prelude::*;

verus! {

/// Why a connection handler refused a request.
#[derive(PartialEq, Eq, Structural, Copy, Clone, Debug, Hash)]
pub enum ConnectionError {
    /// There is no connection to the address, and none may be opened.
    ConnectionNotFound,
    /// The handler already accepts connections.
    AlreadyListening,
    /// A connection failed to send a packet.
    SendFailed,
}

/// What a broadcast answers, given the answer of each send in the order
/// they were awaited: the first failure, or success when every send
/// succeeded (and when there was none).
pub open spec fn broadcast_result_spec(results: Seq<Result<(), ConnectionError>>) -> Result<(), ConnectionError>
    decreases results.len(),
{
    if results.len() == 0 {
        Ok(())
    } else if results[0] is Err {
        results[0]
    } else {
        broadcast_result_spec(results.drop_first())
    }
}

/// What a broadcast answers, given the answers of its sends.
pub fn broadcast_result(results: &Vec<Result<(), ConnectionError>>) -> (r: Result<(), ConnectionError>)
    ensures
        r == broadcast_result_spec(results@),
        r is Ok <==> forall|i: int| 0 <= i < results@.len() ==> results@[i] is Ok,
{
    let mut i: usize = 0;
    proof {
        assert(results@.subrange(0, results@.len() as int) =~= results@);
    }
    while i < results.len()
        invariant
            i <= results.len(),
            forall|j: int| 0 <= j < i ==> results@[j] is Ok,
            broadcast_result_spec(results@) == broadcast_result_spec(results@.subrange(i as int, results@.len() as int)),
        decreases results.len() - i,
    {
        proof {
            let rest = results@.subrange(i as int, results@.len() as int);
            assert(rest.drop_first() =~= results@.subrange(i + 1, results@.len() as int));
            assert(rest[0] == results@[i as int]);
        }
        match results[i] {
            Err(e) => {
                proof {
                    assert(results@[i as int] is Err);
                }
                return Err(e);
            },
            Ok(()) => {},
        }
        i = i + 1;
    }
    proof {
        assert(results@.subrange(i as int, results@.len() as int) =~= Seq::<Result<(), ConnectionError>>::empty());
    }
    Ok(())
}

/// Asks a connection handler to start accepting connections.
#[derive(PartialEq, Eq, Structural, Copy, Clone, Debug, Hash)]
pub struct Listen {}

/// How a packet is sent to an address.
#[derive(PartialEq, Eq, Structural, Copy, Clone, Debug, Hash)]
pub struct SendPlan {
    /// A connection must first be opened to the address.
    pub open_connection: bool,
    /// The connection is asked to restart its inactivity timeout, which it
    /// does when a timeout is set.
    pub restart_timeout: bool,
}

/// The state of a connection handler, as plain values.
pub struct ConnectionTableView {
    /// Whether the handler opens connections to send to new addresses.
    pub start_connections: bool,
    /// The inactivity timeout of connections, in milliseconds, if any.
    pub timeout_ms: Option<u64>,
    /// The addresses that the handler holds a connection to.
    pub connections: Set<SocketAddress>,
    /// Whether the handler accepts connections.
    pub listening: bool,
}

pub struct ConnectionTable {
    start_connections: bool,
    timeout_ms: Option<u64>,
    connections: Vec<SocketAddress>,
    listening: bool,
}

impl View for ConnectionTable {
    type V = ConnectionTableView;

    closed spec fn view(&self) -> ConnectionTableView {
        ConnectionTableView {
            start_connections: self.start_connections,
            timeout_ms: self.timeout_ms,
            connections: self.connections@.to_set(),
            listening: self.listening,
        }
    }
}

/// Whether `a` is in the list `v`.
fn contains_address(v: &Vec<SocketAddress>, a: SocketAddress) -> (r: bool)
    ensures
        r == v@.to_set().contains(a),
{
    let mut i: usize = 0;
    while i < v.len()
        invariant
            i <= v.len(),
            forall|j: int| 0 <= j < i ==> v@[j] != a,
        decreases v.len() - i,
    {
        if v[i] == a {
            proof {
                assert(v@.to_set().contains(v@[i as int]));
            }
            return true;
        }
        i = i + 1;
    }
    proof {
        if v@.to_set().contains(a) {
            let k = choose|k: int| 0 <= k < v@.len() && v@[k] == a;
            assert(v@[k] != a);
        }
    }
    false
}

/// The list `v` without `a`.
fn without_address(v: &Vec<SocketAddress>, a: SocketAddress) -> (r: Vec<SocketAddress>)
    ensures
        r@.to_set() == v@.to_set().remove(a),
{
    let mut r: Vec<SocketAddress> = Vec::new();
    let mut i: usize = 0;
    while i < v.len()
        invariant
            i <= v.len(),
            forall|x: SocketAddress| #[trigger] r@.contains(x) <==> (x != a && exists|j: int| 0 <= j < i && v@[j] == x),
        decreases v.len() - i,
    {
        let x = v[i];
        let ghost before = r@;
        if x != a {
            r.push(x);
        }
        proof {
            assert forall|y: SocketAddress| #[trigger] r@.contains(y) <==> (y != a && exists|j: int| 0 <= j < i + 1 && v@[j] == y) by {
                if r@.contains(y) {
                    let k = choose|k: int| 0 <= k < r@.len() && r@[k] == y;
                    if k < before.len() {
                        assert(before[k] == y);
                        assert(before.contains(y));
                    } else {
                        assert(v@[i as int] == y);
                    }
                }
                if y != a && exists|j: int| 0 <= j < i + 1 && v@[j] == y {
                    let j = choose|j: int| 0 <= j < i + 1 && v@[j] == y;
                    if j < i {
                        assert(before.contains(y));
                        let k = choose|k: int| 0 <= k < before.len() && before[k] == y;
                        assert(r@[k] == y);
                    } else {
                        assert(r@[before.len() as int] == y);
                    }
                }
            }
        }
        i = i + 1;
    }
    proof {
        assert forall|y: SocketAddress| r@.to_set().contains(y) <==> v@.to_set().remove(a).contains(y) by {
            if v@.to_set().contains(y) {
                let j = choose|j: int| 0 <= j < v@.len() && v@[j] == y;
            }
        }
        assert(r@.to_set() =~= v@.to_set().remove(a));
    }
    r
}

impl ConnectionTable {
    /// A handler that holds no connection and does not listen yet.
    pub fn new(start_connections: bool, timeout_ms: Option<u64>) -> (r: Self)
        ensures
            r@.start_connections == start_connections,
            r@.timeout_ms == timeout_ms,
            r@.connections == Set::<SocketAddress>::empty(),
            !r@.listening,
    {
        let r = ConnectionTable { start_connections, timeout_ms, connections: Vec::new(), listening: false };
        proof {
            assert(r@.connections =~= Set::<SocketAddress>::empty());
        }
        r
    }

    /// Decides how to send a packet to `to`: a handler that does not open
    /// connections refuses; otherwise it opens a connection if it has none,
    /// asks it to restart its timeout, and sends.
    pub fn send_packet(&mut self, to: SocketAddress) -> (r: Result<SendPlan, ConnectionError>)
        ensures
            !old(self)@.start_connections ==> r == Err::<SendPlan, ConnectionError>(ConnectionError::ConnectionNotFound)
                && final(self)@ == old(self)@,
            old(self)@.start_connections ==> r == Ok::<SendPlan, ConnectionError>(SendPlan {
                open_connection: !old(self)@.connections.contains(to),
                restart_timeout: true,
            }) && final(self)@ == (ConnectionTableView {
                connections: old(self)@.connections.insert(to),
                ..old(self)@
            }),
    {
        if !self.start_connections {
            return Err(ConnectionError::ConnectionNotFound);
        }
        let open_connection = !contains_address(&self.connections, to);
        if open_connection {
            let ghost before = self.connections@;
            self.connections.push(to);
            proof {
                assert(self.connections@.to_set() =~= before.to_set().insert(to)) by {
                    assert forall|y: SocketAddress| self.connections@.to_set().contains(y) <==> before.to_set().insert(to).contains(y) by {
                        if self.connections@.contains(y) {
                            let k = choose|k: int| 0 <= k < self.connections@.len() && self.connections@[k] == y;
                            if k < before.len() {
                                assert(before[k] == y);
                            }
                        }
                        if before.contains(y) {
                            let k = choose|k: int| 0 <= k < before.len() && before[k] == y;
                            assert(self.connections@[k] == y);
                        }
                        if y == to {
                            assert(self.connections@[before.len() as int] == y);
                        }
                    }
                }
            }
        } else {
            proof {
                assert(self@.connections.insert(to) =~= self@.connections);
            }
        }
        Ok(SendPlan { open_connection, restart_timeout: true })
    }

    /// A packet arrived from `from`: returns whether its connection is asked
    /// to restart its timeout, which it is when the handler holds one. The
    /// packet is passed on either way.
    pub fn packet_received(&self, from: SocketAddress) -> (restart_timeout: bool)
        ensures
            restart_timeout == self@.connections.contains(from),
    {
        contains_address(&self.connections, from)
    }

    /// The inactivity timeout that the connections check when asked to
    /// restart it.
    pub fn timeout_ms(&self) -> (r: Option<u64>)
        ensures
            r == self@.timeout_ms,
    {
        self.timeout_ms
    }

    /// A connection was accepted from `addr`: the handler holds it, in place
    /// of any it held to that address. A new connection starts its timeout
    /// itself, when one is set.
    pub fn add_stream(&mut self, addr: SocketAddress)
        ensures
            final(self)@ == (ConnectionTableView { connections: old(self)@.connections.insert(addr), ..old(self)@ }),
    {
        let mut kept = without_address(&self.connections, addr);
        let ghost before = kept@;
        kept.push(addr);
        proof {
            assert(kept@.to_set() =~= old(self)@.connections.insert(addr)) by {
                assert forall|y: SocketAddress| kept@.to_set().contains(y) <==> old(self)@.connections.insert(addr).contains(y) by {
                    if kept@.contains(y) {
                        let k = choose|k: int| 0 <= k < kept@.len() && kept@[k] == y;
                        if k < before.len() {
                            assert(before[k] == y);
                            assert(before.to_set().contains(y));
                        }
                    }
                    if y != addr && old(self)@.connections.contains(y) {
                        assert(before.to_set().contains(y));
                        let k = choose|k: int| 0 <= k < before.len() && before[k] == y;
                        assert(kept@[k] == y);
                    }
                    if y == addr {
                        assert(kept@[before.len() as int] == y);
                    }
                }
            }
        }
        self.connections = kept;
    }

    /// The connection to `addr` ended, or its timeout ran out: the handler
    /// forgets it.
    pub fn socket_end(&mut self, addr: SocketAddress)
        ensures
            final(self)@ == (ConnectionTableView { connections: old(self)@.connections.remove(addr), ..old(self)@ }),
    {
        self.connections = without_address(&self.connections, addr);
    }

    /// Whether a request to listen may proceed: not while the handler
    /// already listens.
    pub fn listen_request(&self, _request: Listen) -> (r: Result<(), ConnectionError>)
        ensures
            r == (if self@.listening {
                Err::<(), ConnectionError>(ConnectionError::AlreadyListening)
            } else {
                Ok::<(), ConnectionError>(())
            }),
    {
        if self.listening {
            Err(ConnectionError::AlreadyListening)
        } else {
            Ok(())
        }
    }

    /// The listener was bound: the handler listens from now on.
    pub fn listener_bound(&mut self)
        ensures
            final(self)@ == (ConnectionTableView { listening: true, ..old(self)@ }),
    {
        self.listening = true;
    }

    /// The handler stopped: it no longer listens.
    pub fn stopped(&mut self)
        ensures
            final(self)@ == (ConnectionTableView { listening: false, ..old(self)@ }),
    {
        self.listening = false;
    }
}

} // verus!
