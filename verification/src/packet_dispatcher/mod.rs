//! The packet dispatcher: it routes the packets that arrive from other
//! servers to the mutex of their resource, keeps track of which servers are
//! connected, and queues the points that wait to be added to users.
use crate::dist_mutex::messages::{AckMessage, OkMessage, RequestMessage, Timestamp};
use crate::dist_mutex::packets::{MutexPacket, RequestPacket, ResourceId};
use crate::dist_mutex::{
    after_ack, after_ok, after_request, fresh_mutex, ok_completes, request_answer,
    request_granted, release_targets, restarted, AcquireStep, DistMutex, DistMutexView, MutexError,
};
use crate::packet_dispatcher::commit::{
    CommitCompleteMessage, CommitRequestMessage, Transaction, TwoPhaseCommitMessage, TwoPhaseCommitPacket,
};
use crate::packet_dispatcher::messages::{
    AddPointsMessage, BlockPointsMessage, DiscountMessage, QueuePointsMessage, TransactionId,
};
use crate::packet_dispatcher::packet::{Packet, SyncResponsePacket};
use crate::packet_dispatcher::servers::{connected_set, pruned, ServersLastSeen};
use crate::server_id::{ServerId, SocketAddress};
use std::collections::HashMap;
use vstd::std_specs::iter::IteratorSpec;
use vstd::prelude::*;

pub mod add_points;
pub mod commit;
pub mod commit_codec;
pub mod error;
pub mod messages;
pub mod packet;
pub mod servers;

verus! {

broadcast use vstd::std_specs::hash::group_hash_axioms;

/// The state of a packet dispatcher, as plain values.
pub struct PacketDispatcherView {
    pub server_id: ServerId,
    /// The mutex of each resource that packets or requests have named.
    pub mutexes: Map<u32, DistMutexView>,
    /// When each other server was last heard from.
    pub servers_last_seen: Map<ServerId, Option<Timestamp>>,
    /// The points that wait to be added, in arrival order.
    pub points_queue: Seq<QueuePointsMessage>,
    /// The number of the next addition of points this server makes.
    pub points_ids_counter: u32,
}

pub struct PacketDispatcher {
    server_id: ServerId,
    mutexes: HashMap<u32, DistMutex>,
    servers_last_seen: ServersLastSeen,
    points_queue: Vec<QueuePointsMessage>,
    points_ids_counter: u32,
}

impl View for PacketDispatcher {
    type V = PacketDispatcherView;

    closed spec fn view(&self) -> PacketDispatcherView {
        PacketDispatcherView {
            server_id: self.server_id,
            mutexes: self.mutexes@.map_values(|m: DistMutex| m@),
            servers_last_seen: self.servers_last_seen@,
            points_queue: self.points_queue@,
            points_ids_counter: self.points_ids_counter,
        }
    }
}

/// The mutex of resource `id` in dispatcher `d`: a fresh one if no packet
/// has named the resource yet.
pub open spec fn mutex_of(d: PacketDispatcherView, id: ResourceId) -> DistMutexView {
    if d.mutexes.contains_key(id.id) {
        d.mutexes[id.id]
    } else {
        fresh_mutex(d.server_id, id)
    }
}

/// The servers that count as connected in dispatcher `d`.
pub open spec fn connected_servers_of(d: PacketDispatcherView) -> Set<ServerId> {
    connected_set(d.servers_last_seen)
}

/// What routing a mutex packet produces: the packets to send back to its
/// sender, and whether a waiting acquisition got all its oks.
#[derive(PartialEq, Eq, Debug)]
pub struct MutexDispatch {
    pub replies: Vec<MutexPacket>,
    pub all_oks_received: bool,
}

/// Where a packet that arrived goes.
#[derive(PartialEq, Eq, Debug)]
pub enum Routed {
    /// To the mutex of its resource, with what that mutex answers.
    Mutex(MutexDispatch),
    /// To the commit coordinator, as this message.
    Commit(TwoPhaseCommitMessage),
    /// The commit coordinator sends its database to `to`.
    ForwardDatabase { to: ServerId },
    /// The commit coordinator updates its database from the snapshot.
    UpdateDatabase(SyncResponsePacket),
}

/// What blocking points asks: to prepare a discount of the amount from the
/// user, under the mutex of that user.
pub fn block_points_request(msg: BlockPointsMessage) -> (r: (ResourceId, CommitRequestMessage))
    ensures
        r.0 == (ResourceId { id: msg.user_id }),
        r.1 == (CommitRequestMessage {
            id: msg.transaction_id,
            transaction: Transaction::Discount { id: msg.user_id, amount: msg.amount },
        }),
{
    (
        ResourceId { id: msg.user_id },
        CommitRequestMessage { id: msg.transaction_id, transaction: Transaction::Discount { id: msg.user_id, amount: msg.amount } },
    )
}

/// Whether `message` is what the commit coordinator is told of commit
/// packet `packet` from server `from` in dispatcher state `v`: the message of
/// the packet's kind, with its sender; a yes vote also carries the servers
/// connected then, each once.
pub open spec fn commit_message_for(
    v: PacketDispatcherView,
    from: ServerId,
    packet: TwoPhaseCommitPacket,
    message: TwoPhaseCommitMessage,
) -> bool {
    match packet {
        TwoPhaseCommitPacket::Prepare { id, transaction } => message == (TwoPhaseCommitMessage::Prepare { from, id, transaction }),
        TwoPhaseCommitPacket::Commit { id } => message == (TwoPhaseCommitMessage::Commit { id, from }),
        TwoPhaseCommitPacket::Rollback { id } => message == (TwoPhaseCommitMessage::Rollback { id }),
        TwoPhaseCommitPacket::VoteYes { id } => message matches TwoPhaseCommitMessage::VoteYes { id: i, from: f, connected_servers }
            && i == id && f == from && connected_servers@.to_set() == connected_servers_of(v)
            && connected_servers@.no_duplicates(),
        TwoPhaseCommitPacket::VoteNo { id } => message == (TwoPhaseCommitMessage::VoteNo { id, from }),
    }
}

/// The resource that a mutex packet is about.
pub open spec fn packet_resource(p: MutexPacket) -> ResourceId {
    match p {
        MutexPacket::Request(r) => r.id,
        MutexPacket::Okay(o) => o.id,
        MutexPacket::Ack(a) => a.id,
        MutexPacket::Release(r) => r.id,
    }
}

impl PacketDispatcher {
    /// Well formed: each mutex is stored under its own resource id and
    /// belongs to this server, and no server is listed twice.
    pub closed spec fn wf(&self) -> bool {
        &&& self.servers_last_seen.wf()
        &&& forall|k: u32| #[trigger] self.mutexes@.contains_key(k) ==> self.mutexes@[k]@.id.id == k
            && self.mutexes@[k]@.server_id == self.server_id
    }

    /// The dispatcher of server `server_id`, which knows the servers
    /// `servers` of the configuration (itself excepted), none of them seen
    /// yet, and has no mutex and no queued points.
    pub fn new(server_id: ServerId, servers: &Vec<ServerId>) -> (r: Self)
        ensures
            r.wf(),
            r@.server_id == server_id,
            r@.mutexes == Map::<u32, DistMutexView>::empty(),
            forall|s: ServerId| #[trigger] r@.servers_last_seen.dom().contains(s) <==> (servers@.contains(s) && s != server_id),
            forall|s: ServerId| #[trigger] r@.servers_last_seen.dom().contains(s) ==> r@.servers_last_seen[s] is None,
            r@.points_queue == Seq::<QueuePointsMessage>::empty(),
            r@.points_ids_counter == 0,
    {
        let r = PacketDispatcher {
            server_id,
            mutexes: HashMap::new(),
            servers_last_seen: ServersLastSeen::from_config(servers, server_id),
            points_queue: Vec::new(),
            points_ids_counter: 0,
        };
        proof {
            assert(r@.mutexes =~= Map::<u32, DistMutexView>::empty());
        }
        r
    }

    pub fn server_id(&self) -> (r: ServerId)
        ensures
            r == self@.server_id,
    {
        self.server_id
    }

    /// Takes the mutex of resource `id` out of the table, creating it if no
    /// packet named the resource yet.
    fn take_mutex(&mut self, id: ResourceId) -> (m: DistMutex)
        requires
            old(self).wf(),
        ensures
            final(self).wf(),
            m@ == mutex_of(old(self)@, id),
            final(self)@ == (PacketDispatcherView { mutexes: old(self)@.mutexes.remove(id.id), ..old(self)@ }),
    {
        let ghost before = self.mutexes@;
        let taken = self.mutexes.remove(&id.id);
        proof {
            assert(self@.mutexes =~= before.map_values(|m: DistMutex| m@).remove(id.id));
        }
        match taken {
            Some(m) => m,
            None => DistMutex::new(self.server_id, id),
        }
    }

    /// Puts the mutex of resource `id` back into the table.
    fn put_mutex(&mut self, id: ResourceId, m: DistMutex)
        requires
            old(self).wf(),
            m@.id == id,
            m@.server_id == old(self)@.server_id,
        ensures
            final(self).wf(),
            final(self)@ == (PacketDispatcherView { mutexes: old(self)@.mutexes.insert(id.id, m@), ..old(self)@ }),
    {
        let ghost before = self.mutexes@;
        let ghost mv = m@;
        self.mutexes.insert(id.id, m);
        proof {
            assert(self@.mutexes =~= before.map_values(|m: DistMutex| m@).insert(id.id, mv));
        }
    }

    /// Records that a packet arrived from `origin` at `now`: its server
    /// counts as connected from then on. Returns that server.
    pub fn record_packet_from(&mut self, origin: SocketAddress, now: Timestamp) -> (from: ServerId)
        requires
            old(self).wf(),
        ensures
            final(self).wf(),
            from == (ServerId { ip: origin.ip }),
            final(self)@ == (PacketDispatcherView {
                servers_last_seen: old(self)@.servers_last_seen.insert(from, Some(now)),
                ..old(self)@
            }),
    {
        let from = ServerId::from_socket_addr(origin);
        self.servers_last_seen.mark_seen(from, now);
        from
    }

    /// Routes a mutex packet from `from` to the mutex of its resource: a
    /// request is answered, an ack or an ok recorded; a release packet
    /// changes nothing.
    pub fn handle_mutex(&mut self, from: ServerId, packet: MutexPacket) -> (r: MutexDispatch)
        requires
            old(self).wf(),
        ensures
            final(self).wf(),
            final(self)@.server_id == old(self)@.server_id,
            final(self)@.servers_last_seen == old(self)@.servers_last_seen,
            final(self)@.points_queue == old(self)@.points_queue,
            final(self)@.points_ids_counter == old(self)@.points_ids_counter,
            ({
                let id = packet_resource(packet);
                let m = mutex_of(old(self)@, id);
                match packet {
                    MutexPacket::Request(req) => {
                        &&& r.replies@ == request_answer(id, request_granted(m.lock_timestamp, req.timestamp))
                        &&& !r.all_oks_received
                        &&& final(self)@.mutexes == old(self)@.mutexes.insert(id.id, after_request(m, from, req.timestamp))
                    },
                    MutexPacket::Ack(_) => {
                        &&& r.replies@ == Seq::<MutexPacket>::empty()
                        &&& !r.all_oks_received
                        &&& final(self)@.mutexes == old(self)@.mutexes.insert(id.id, after_ack(m, from))
                    },
                    MutexPacket::Okay(_) => {
                        let connected = connected_servers_of(old(self)@);
                        &&& r.replies@ == Seq::<MutexPacket>::empty()
                        &&& r.all_oks_received == ok_completes(m, from, connected)
                        &&& final(self)@.mutexes == old(self)@.mutexes.insert(id.id, after_ok(m, from, connected))
                    },
                    MutexPacket::Release(_) => {
                        &&& r.replies@ == Seq::<MutexPacket>::empty()
                        &&& !r.all_oks_received
                        &&& final(self)@.mutexes == old(self)@.mutexes
                    },
                }
            }),
    {
        match packet {
            MutexPacket::Request(request) => {
                let mut mutex = self.take_mutex(request.id);
                let message = RequestMessage::new(from, request);
                let replies = mutex.handle_request(message);
                self.put_mutex(request.id, mutex);
                proof {
                    assert(self@.mutexes =~= old(self)@.mutexes.insert(request.id.id, after_request(mutex_of(old(self)@, request.id), from, request.timestamp)));
                }
                MutexDispatch { replies, all_oks_received: false }
            },
            MutexPacket::Ack(ack) => {
                let mut mutex = self.take_mutex(ack.id);
                let message = AckMessage::new(from, ack);
                mutex.handle_ack(message);
                self.put_mutex(ack.id, mutex);
                proof {
                    assert(self@.mutexes =~= old(self)@.mutexes.insert(ack.id.id, after_ack(mutex_of(old(self)@, ack.id), from)));
                }
                MutexDispatch { replies: Vec::new(), all_oks_received: false }
            },
            MutexPacket::Okay(ok) => {
                let connected_servers = self.servers_last_seen.connected_servers();
                let mut mutex = self.take_mutex(ok.id);
                let message = OkMessage::new(from, connected_servers, ok);
                let all_oks_received = mutex.handle_ok(&message);
                self.put_mutex(ok.id, mutex);
                proof {
                    assert(self@.mutexes =~= old(self)@.mutexes.insert(ok.id.id, after_ok(mutex_of(old(self)@, ok.id), from, connected_set(old(self)@.servers_last_seen))));
                }
                MutexDispatch { replies: Vec::new(), all_oks_received }
            },
            MutexPacket::Release(_) => {
                MutexDispatch { replies: Vec::new(), all_oks_received: false }
            },
        }
    }

    /// Handles a packet that arrived from `origin` at `now`: its server is
    /// seen, then the packet goes where its type says: a mutex packet to the
    /// mutex of its resource, a commit packet and the synchronisation
    /// packets to the commit coordinator.
    pub fn handle_packet(&mut self, origin: SocketAddress, now: Timestamp, packet: Packet) -> (r: Routed)
        requires
            old(self).wf(),
        ensures
            final(self).wf(),
            ({
                let from = ServerId { ip: origin.ip };
                let seen = PacketDispatcherView {
                    servers_last_seen: old(self)@.servers_last_seen.insert(from, Some(now)),
                    ..old(self)@
                };
                match packet {
                    Packet::Mutex(p) => {
                        let id = packet_resource(p);
                        let m = mutex_of(seen, id);
                        &&& r matches Routed::Mutex(d)
                        &&& final(self)@.server_id == seen.server_id
                        &&& final(self)@.servers_last_seen == seen.servers_last_seen
                        &&& final(self)@.points_queue == seen.points_queue
                        &&& final(self)@.points_ids_counter == seen.points_ids_counter
                        &&& match p {
                            MutexPacket::Request(req) => {
                                &&& d.replies@ == request_answer(id, request_granted(m.lock_timestamp, req.timestamp))
                                &&& !d.all_oks_received
                                &&& final(self)@.mutexes == seen.mutexes.insert(id.id, after_request(m, from, req.timestamp))
                            },
                            MutexPacket::Ack(_) => {
                                &&& d.replies@ == Seq::<MutexPacket>::empty()
                                &&& !d.all_oks_received
                                &&& final(self)@.mutexes == seen.mutexes.insert(id.id, after_ack(m, from))
                            },
                            MutexPacket::Okay(_) => {
                                let connected = connected_servers_of(seen);
                                &&& d.replies@ == Seq::<MutexPacket>::empty()
                                &&& d.all_oks_received == ok_completes(m, from, connected)
                                &&& final(self)@.mutexes == seen.mutexes.insert(id.id, after_ok(m, from, connected))
                            },
                            MutexPacket::Release(_) => {
                                &&& d.replies@ == Seq::<MutexPacket>::empty()
                                &&& !d.all_oks_received
                                &&& final(self)@.mutexes == seen.mutexes
                            },
                        }
                    },
                    Packet::Commit(p) => {
                        &&& final(self)@ == seen
                        &&& r matches Routed::Commit(m)
                        &&& commit_message_for(seen, from, p, m)
                    },
                    Packet::SyncRequest(_) => final(self)@ == seen && r == Routed::ForwardDatabase { to: from },
                    Packet::SyncResponse(p) => final(self)@ == seen && r == Routed::UpdateDatabase(p),
                }
            }),
    {
        let from = self.record_packet_from(origin, now);
        match packet {
            Packet::Mutex(p) => Routed::Mutex(self.handle_mutex(from, p)),
            Packet::Commit(p) => Routed::Commit(self.handle_commit(from, p)),
            Packet::SyncRequest(_) => Routed::ForwardDatabase { to: from },
            Packet::SyncResponse(p) => Routed::UpdateDatabase(p),
        }
    }

    /// The addresses a broadcast goes to: each connected server once, at
    /// `port`.
    pub fn broadcast_addresses(&self, port: u16) -> (r: Vec<SocketAddress>)
        requires
            self.wf(),
        ensures
            r@.no_duplicates(),
            forall|a: SocketAddress| #[trigger] r@.contains(a) <==> (a.port == port
                && connected_servers_of(self@).contains(ServerId { ip: a.ip })),
    {
        let servers = self.servers_last_seen.connected_servers();
        let mut r: Vec<SocketAddress> = Vec::new();
        let mut i: usize = 0;
        while i < servers.len()
            invariant
                i <= servers.len(),
                servers@.no_duplicates(),
                r@.len() == i,
                forall|j: int| 0 <= j < i ==> #[trigger] r@[j] == (SocketAddress { ip: servers@[j].ip, port }),
            decreases servers.len() - i,
        {
            r.push(servers[i].get_socket_addr(port));
            i = i + 1;
        }
        proof {
            assert forall|a: int, b: int| 0 <= a < r@.len() && 0 <= b < r@.len() && a != b implies r@[a] != r@[b] by {
                assert(servers@[a] != servers@[b]);
                assert(r@[a] == (SocketAddress { ip: servers@[a].ip, port }));
                assert(r@[b] == (SocketAddress { ip: servers@[b].ip, port }));
                if r@[a] == r@[b] {
                    assert(servers@[a] == ServerId { ip: servers@[a].ip });
                    assert(servers@[b] == ServerId { ip: servers@[b].ip });
                }
            }
            assert forall|x: SocketAddress| #[trigger] r@.contains(x) <==> (x.port == port
                && connected_servers_of(self@).contains(ServerId { ip: x.ip })) by {
                if r@.contains(x) {
                    let k = choose|k: int| 0 <= k < r@.len() && r@[k] == x;
                    assert(r@[k] == (SocketAddress { ip: servers@[k].ip, port }));
                    assert(servers@[k] == ServerId { ip: servers@[k].ip });
                    assert(servers@.to_set().contains(servers@[k]));
                }
                if x.port == port && connected_servers_of(self@).contains(ServerId { ip: x.ip }) {
                    assert(servers@.to_set().contains(ServerId { ip: x.ip }));
                    let k = choose|k: int| 0 <= k < servers@.len() && servers@[k] == ServerId { ip: x.ip };
                    assert(r@[k] == x);
                }
            }
        }
        r
    }

    /// What completing transaction `id` asks of the commit coordinator: to
    /// complete it with the servers connected now.
    pub fn commit_complete_message(&self, id: TransactionId) -> (m: CommitCompleteMessage)
        requires
            self.wf(),
        ensures
            m.id == id,
            m.connected_servers@.to_set() == connected_servers_of(self@),
            m.connected_servers@.no_duplicates(),
    {
        CommitCompleteMessage { id, connected_servers: self.servers_last_seen.connected_servers() }
    }

    /// What adding points asks: the next addition of this server is
    /// numbered, and the increase of the user's points is prepared and then
    /// completed under the mutex of that user.
    pub fn add_points_request(&mut self, msg: AddPointsMessage) -> (r: (ResourceId, CommitRequestMessage, CommitCompleteMessage))
        requires
            old(self).wf(),
            old(self)@.points_ids_counter < u32::MAX,
        ensures
            final(self).wf(),
            final(self)@ == (PacketDispatcherView { points_ids_counter: (old(self)@.points_ids_counter + 1) as u32, ..old(self)@ }),
            r.0 == (ResourceId { id: msg.id }),
            r.1 == (CommitRequestMessage {
                id: TransactionId::Add(old(self)@.server_id, old(self)@.points_ids_counter),
                transaction: Transaction::Increase { id: msg.id, amount: msg.amount },
            }),
            r.2.id == TransactionId::Add(old(self)@.server_id, old(self)@.points_ids_counter),
            r.2.connected_servers@.to_set() == connected_servers_of(old(self)@),
            r.2.connected_servers@.no_duplicates(),
    {
        let complete_servers = self.servers_last_seen.connected_servers();
        let transaction_id = self.next_add_transaction();
        let request = CommitRequestMessage {
            id: transaction_id,
            transaction: Transaction::Increase { id: msg.id, amount: msg.amount },
        };
        (ResourceId { id: msg.id }, request, CommitCompleteMessage { id: transaction_id, connected_servers: complete_servers })
    }

    /// What confirming a discount asks: to complete its transaction, with
    /// the servers connected now, under the mutex of the user.
    pub fn discount_request(&self, msg: DiscountMessage) -> (r: (ResourceId, CommitCompleteMessage))
        requires
            self.wf(),
        ensures
            r.0 == (ResourceId { id: msg.user_id }),
            r.1.id == msg.transaction_id,
            r.1.connected_servers@.to_set() == connected_servers_of(self@),
            r.1.connected_servers@.no_duplicates(),
    {
        (ResourceId { id: msg.user_id }, self.commit_complete_message(msg.transaction_id))
    }

    /// Routes a packet of the two-phase commit from `from` to the commit
    /// coordinator: each packet becomes the message of its kind, told who
    /// sent it; a yes vote also carries the servers connected now.
    pub fn handle_commit(&self, from: ServerId, packet: TwoPhaseCommitPacket) -> (message: TwoPhaseCommitMessage)
        requires
            self.wf(),
        ensures
            commit_message_for(self@, from, packet, message),
    {
        match packet {
            TwoPhaseCommitPacket::Prepare { id, transaction } => TwoPhaseCommitMessage::Prepare { from, id, transaction },
            TwoPhaseCommitPacket::Commit { id } => TwoPhaseCommitMessage::Commit { id, from },
            TwoPhaseCommitPacket::Rollback { id } => TwoPhaseCommitMessage::Rollback { id },
            TwoPhaseCommitPacket::VoteYes { id } => TwoPhaseCommitMessage::VoteYes {
                id,
                from,
                connected_servers: self.servers_last_seen.connected_servers(),
            },
            TwoPhaseCommitPacket::VoteNo { id } => TwoPhaseCommitMessage::VoteNo { id, from },
        }
    }

    /// The servers heard from since the last prune, each once.
    pub fn get_connected_servers(&self) -> (r: Vec<ServerId>)
        requires
            self.wf(),
        ensures
            r@.to_set() == connected_servers_of(self@),
            r@.no_duplicates(),
    {
        self.servers_last_seen.connected_servers()
    }

    /// Every other server of the configuration or heard from, each once:
    /// those a synchronisation request goes to.
    pub fn get_known_servers(&self) -> (r: Vec<ServerId>)
        requires
            self.wf(),
        ensures
            r@.to_set() == self@.servers_last_seen.dom(),
            r@.no_duplicates(),
    {
        self.servers_last_seen.known_servers()
    }

    /// Marks the servers last heard from before `older_than` as
    /// disconnected.
    pub fn prune(&mut self, older_than: Timestamp)
        requires
            old(self).wf(),
        ensures
            final(self).wf(),
            final(self)@.servers_last_seen.dom() == old(self)@.servers_last_seen.dom(),
            forall|s: ServerId| #[trigger] final(self)@.servers_last_seen.dom().contains(s)
                ==> final(self)@.servers_last_seen[s] == pruned(old(self)@.servers_last_seen[s], older_than),
            final(self)@.server_id == old(self)@.server_id,
            final(self)@.mutexes == old(self)@.mutexes,
            final(self)@.points_queue == old(self)@.points_queue,
            final(self)@.points_ids_counter == old(self)@.points_ids_counter,
    {
        self.servers_last_seen.prune(older_than);
    }

    /// Starts to acquire the mutex of resource `id` at `now`. Returns the
    /// request, to be broadcast to the connected servers.
    pub fn start_acquire(&mut self, id: ResourceId, now: Timestamp) -> (request: RequestPacket)
        requires
            old(self).wf(),
        ensures
            final(self).wf(),
            request == (RequestPacket { id, timestamp: now }),
            final(self)@ == (PacketDispatcherView {
                mutexes: old(self)@.mutexes.insert(id.id, DistMutexView {
                    lock_timestamp: Some(now),
                    acks: Set::empty(),
                    oks: Set::empty(),
                    waiting: true,
                    ..mutex_of(old(self)@, id)
                }),
                ..old(self)@
            }),
    {
        let mut mutex = self.take_mutex(id);
        let request = mutex.start_acquire(now);
        self.put_mutex(id, mutex);
        proof {
            assert(self@.mutexes =~= old(self)@.mutexes.insert(id.id, DistMutexView {
                lock_timestamp: Some(now),
                acks: Set::empty(),
                oks: Set::empty(),
                waiting: true,
                ..mutex_of(old(self)@, id)
            }));
        }
        request
    }

    /// The first wait for the oks of resource `id` ended without all of
    /// them. Decides as [`DistMutex::first_wait_expired`]; when the lock is
    /// held after all, the servers that did not answer since the request
    /// was made are pruned; when the server is disconnected, every mutex
    /// restarts (see [`PacketDispatcher::die`]).
    pub fn first_wait_expired(&mut self, id: ResourceId) -> (step: AcquireStep)
        requires
            old(self).wf(),
            mutex_of(old(self)@, id).lock_timestamp is Some,
        ensures
            final(self).wf(),
            ({
                let m = mutex_of(old(self)@, id);
                &&& m.acks.is_empty() ==> step == AcquireStep::Disconnected
                &&& !m.acks.is_empty() && m.oks == m.acks ==> step == (AcquireStep::Acquired {
                    prune_older_than: m.lock_timestamp->Some_0,
                })
                &&& !m.acks.is_empty() && m.oks != m.acks ==> step == AcquireStep::WaitLonger
                &&& step != AcquireStep::Disconnected ==> final(self)@.mutexes == old(self)@.mutexes.insert(id.id, DistMutexView {
                    waiting: step == AcquireStep::WaitLonger,
                    ..m
                })
                &&& step == AcquireStep::Disconnected ==> final(self)@.mutexes == old(self)@.mutexes.insert(id.id, DistMutexView {
                    lock_timestamp: None,
                    waiting: false,
                    ..m
                }).map_values(|v: DistMutexView| restarted(v))
                &&& final(self)@.servers_last_seen.dom() == old(self)@.servers_last_seen.dom()
                &&& forall|s: ServerId| #[trigger] final(self)@.servers_last_seen.dom().contains(s)
                    ==> final(self)@.servers_last_seen[s] == match step {
                        AcquireStep::Acquired { prune_older_than } => pruned(old(self)@.servers_last_seen[s], prune_older_than),
                        _ => old(self)@.servers_last_seen[s],
                    }
            }),
            final(self)@.server_id == old(self)@.server_id,
            final(self)@.points_queue == old(self)@.points_queue,
            final(self)@.points_ids_counter == old(self)@.points_ids_counter,
    {
        let mut mutex = self.take_mutex(id);
        let ghost m = mutex@;
        let step = mutex.first_wait_expired();
        self.put_mutex(id, mutex);
        proof {
            assert(self@.mutexes =~= old(self)@.mutexes.insert(id.id, DistMutexView {
                lock_timestamp: if step == AcquireStep::Disconnected {
                    None
                } else {
                    m.lock_timestamp
                },
                waiting: step == AcquireStep::WaitLonger,
                ..m
            }));
        }
        match step {
            AcquireStep::Acquired { prune_older_than } => {
                self.servers_last_seen.prune(prune_older_than);
            },
            AcquireStep::Disconnected => {
                self.die();
            },
            AcquireStep::WaitLonger => {},
        }
        step
    }

    /// The second wait for the oks of resource `id` ended without all of
    /// them: the acquisition fails with a timeout.
    pub fn second_wait_expired(&mut self, id: ResourceId) -> (e: MutexError)
        requires
            old(self).wf(),
        ensures
            final(self).wf(),
            e == MutexError::Timeout,
            final(self)@ == (PacketDispatcherView {
                mutexes: old(self)@.mutexes.insert(id.id, DistMutexView {
                    lock_timestamp: None,
                    waiting: false,
                    ..mutex_of(old(self)@, id)
                }),
                ..old(self)@
            }),
    {
        let mut mutex = self.take_mutex(id);
        let e = mutex.second_wait_expired();
        self.put_mutex(id, mutex);
        proof {
            assert(self@.mutexes =~= old(self)@.mutexes.insert(id.id, DistMutexView {
                lock_timestamp: None,
                waiting: false,
                ..mutex_of(old(self)@, id)
            }));
        }
        e
    }

    /// Releases the mutex of resource `id`. Returns the servers to send an
    /// ok to.
    pub fn release(&mut self, id: ResourceId) -> (granted_to: Vec<ServerId>)
        requires
            old(self).wf(),
        ensures
            final(self).wf(),
            ({
                let m = mutex_of(old(self)@, id);
                &&& m.lock_timestamp is None ==> granted_to@ == Seq::<ServerId>::empty()
                    && final(self)@.mutexes == old(self)@.mutexes.insert(id.id, m)
                &&& m.lock_timestamp is Some ==> granted_to@ == release_targets(m.queue, m.server_id)
                    && final(self)@.mutexes == old(self)@.mutexes.insert(id.id, DistMutexView {
                        queue: Seq::empty(),
                        lock_timestamp: None,
                        acks: Set::empty(),
                        oks: Set::empty(),
                        waiting: false,
                        ..m
                    })
            }),
            final(self)@.server_id == old(self)@.server_id,
            final(self)@.servers_last_seen == old(self)@.servers_last_seen,
            final(self)@.points_queue == old(self)@.points_queue,
            final(self)@.points_ids_counter == old(self)@.points_ids_counter,
    {
        let mut mutex = self.take_mutex(id);
        let ghost m = mutex@;
        let granted_to = mutex.release();
        let ghost after = mutex@;
        self.put_mutex(id, mutex);
        proof {
            assert(self@.mutexes =~= old(self)@.mutexes.insert(id.id, after));
        }
        granted_to
    }

    /// The resources that have a mutex, each once.
    fn mutex_ids(&self) -> (ids: Vec<u32>)
        ensures
            ids@.to_set() == self.mutexes@.dom(),
    {
        let mut ids: Vec<u32> = Vec::new();
        let ghost keys = vstd::std_specs::hash::spec_keys_iter(&self.mutexes).remaining();
        for k in it: self.mutexes.keys()
            invariant
                it.seq() == keys,
                ids@.len() == it.index(),
                forall|j: int| 0 <= j < it.index() ==> ids@[j] == *keys[j],
        {
            ids.push(*k);
        }
        proof {
            assert(ids@ =~= keys.unref());
        }
        ids
    }

    /// Stops every mutex after the system was found disconnected: each one
    /// restarts, forgetting the acks and oks of its acquisition.
    pub fn die(&mut self)
        requires
            old(self).wf(),
        ensures
            final(self).wf(),
            final(self)@ == (PacketDispatcherView {
                mutexes: old(self)@.mutexes.map_values(|m: DistMutexView| restarted(m)),
                ..old(self)@
            }),
    {
        let ids = self.mutex_ids();
        let ghost dom = self@.mutexes.dom();
        let mut i: usize = 0;
        while i < ids.len()
            invariant
                self.wf(),
                i <= ids.len(),
                ids@.to_set() == dom,
                self@.mutexes.dom() == dom,
                self@.server_id == old(self)@.server_id,
                self@.servers_last_seen == old(self)@.servers_last_seen,
                self@.points_queue == old(self)@.points_queue,
                self@.points_ids_counter == old(self)@.points_ids_counter,
                forall|k: u32| #[trigger] dom.contains(k) ==> self@.mutexes[k] == if exists|j: int| 0 <= j < i && ids@[j] == k {
                    restarted(old(self)@.mutexes[k])
                } else {
                    old(self)@.mutexes[k]
                },
            decreases ids.len() - i,
        {
            let id = ResourceId { id: ids[i] };
            proof {
                assert(ids@.to_set().contains(ids@[i as int]));
                assert(self.mutexes@.contains_key(id.id));
            }
            let mut mutex = self.take_mutex(id);
            mutex.clean_state();
            self.put_mutex(id, mutex);
            proof {
                assert forall|k: u32| #[trigger] dom.contains(k) implies self@.mutexes[k] == if exists|j: int| 0 <= j < i + 1 && ids@[j] == k {
                    restarted(old(self)@.mutexes[k])
                } else {
                    old(self)@.mutexes[k]
                } by {
                    if k == id.id {
                        assert(ids@[i as int] == k);
                    } else if exists|j: int| 0 <= j < i + 1 && ids@[j] == k {
                        let j = choose|j: int| 0 <= j < i + 1 && ids@[j] == k;
                        assert(j < i);
                    }
                }
                assert(self@.mutexes.dom() =~= dom);
            }
            i = i + 1;
        }
        proof {
            assert forall|k: u32| #[trigger] dom.contains(k) implies exists|j: int| 0 <= j < ids.len() && ids@[j] == k by {
                assert(ids@.to_set().contains(k));
            }
            assert(self@.mutexes =~= old(self)@.mutexes.map_values(|m: DistMutexView| restarted(m)));
        }
    }

    /// Queues points to be added to a user.
    pub fn queue_points(&mut self, msg: QueuePointsMessage)
        requires
            old(self).wf(),
        ensures
            final(self).wf(),
            final(self)@ == (PacketDispatcherView { points_queue: old(self)@.points_queue.push(msg), ..old(self)@ }),
    {
        self.points_queue.push(msg);
        proof {
            assert(self@.mutexes =~= old(self)@.mutexes);
        }
    }

    /// Takes every queued point out of the queue, to try to add them.
    pub fn take_points_queue(&mut self) -> (points: Vec<QueuePointsMessage>)
        requires
            old(self).wf(),
        ensures
            final(self).wf(),
            points@ == old(self)@.points_queue,
            final(self)@ == (PacketDispatcherView { points_queue: Seq::empty(), ..old(self)@ }),
    {
        let mut points = Vec::new();
        std::mem::swap(&mut points, &mut self.points_queue);
        proof {
            assert(self@.mutexes =~= old(self)@.mutexes);
            assert(self@.points_queue =~= Seq::<QueuePointsMessage>::empty());
        }
        points
    }

    /// Puts back, after the points queued meanwhile, those of `attempted`
    /// whose addition failed (`added[i]` tells whether `attempted[i]` was
    /// added), in their order.
    pub fn requeue_failed_points(&mut self, attempted: &Vec<QueuePointsMessage>, added: &Vec<bool>)
        requires
            old(self).wf(),
            attempted.len() == added.len(),
        ensures
            final(self).wf(),
            final(self)@ == (PacketDispatcherView {
                points_queue: old(self)@.points_queue + failed_points(attempted@, added@),
                ..old(self)@
            }),
    {
        let mut i: usize = 0;
        while i < attempted.len()
            invariant
                self.wf(),
                i <= attempted.len() == added.len(),
                self@ == (PacketDispatcherView {
                    points_queue: old(self)@.points_queue + failed_points(attempted@.subrange(0, i as int), added@.subrange(0, i as int)),
                    ..old(self)@
                }),
            decreases attempted.len() - i,
        {
            proof {
                assert(attempted@.subrange(0, i + 1).drop_last() =~= attempted@.subrange(0, i as int));
                assert(added@.subrange(0, i + 1).drop_last() =~= added@.subrange(0, i as int));
            }
            if !added[i] {
                self.points_queue.push(attempted[i]);
            }
            proof {
                assert(self@.mutexes =~= old(self)@.mutexes);
                assert(self@.points_queue =~= old(self)@.points_queue + failed_points(attempted@.subrange(0, i + 1), added@.subrange(0, i + 1)));
            }
            i = i + 1;
        }
        proof {
            assert(attempted@.subrange(0, attempted.len() as int) =~= attempted@);
            assert(added@.subrange(0, added.len() as int) =~= added@);
        }
    }

    /// Numbers the next addition of points that this server makes.
    pub fn next_add_transaction(&mut self) -> (t: TransactionId)
        requires
            old(self).wf(),
            old(self)@.points_ids_counter < u32::MAX,
        ensures
            final(self).wf(),
            t == TransactionId::Add(old(self)@.server_id, old(self)@.points_ids_counter),
            final(self)@ == (PacketDispatcherView { points_ids_counter: (old(self)@.points_ids_counter + 1) as u32, ..old(self)@ }),
    {
        let t = TransactionId::Add(self.server_id, self.points_ids_counter);
        self.points_ids_counter = self.points_ids_counter + 1;
        proof {
            assert(self@.mutexes =~= old(self)@.mutexes);
        }
        t
    }
}

/// The points of `attempted` whose addition failed, in their order.
pub open spec fn failed_points(attempted: Seq<QueuePointsMessage>, added: Seq<bool>) -> Seq<QueuePointsMessage>
    decreases attempted.len(),
{
    if attempted.len() == 0 || added.len() == 0 {
        Seq::empty()
    } else {
        let rest = failed_points(attempted.drop_last(), added.drop_last());
        if added.last() {
            rest
        } else {
            rest.push(attempted.last())
        }
    }
}

/// A retry of the queued points loses none: every attempted point whose
/// addition failed is queued again, and a point is queued again only if its
/// addition failed.
pub proof fn lemma_failed_points_requeued(attempted: Seq<QueuePointsMessage>, added: Seq<bool>)
    requires
        attempted.len() == added.len(),
    ensures
        forall|i: int| 0 <= i < attempted.len() && !added[i] ==> failed_points(attempted, added).contains(#[trigger] attempted[i]),
        forall|p: QueuePointsMessage| failed_points(attempted, added).contains(p) ==> exists|i: int| 0 <= i < attempted.len() && !added[i] && attempted[i] == p,
    decreases attempted.len(),
{
    if attempted.len() > 0 {
        let a = attempted.drop_last();
        let d = added.drop_last();
        lemma_failed_points_requeued(a, d);
        let rest = failed_points(a, d);
        assert forall|i: int| 0 <= i < attempted.len() && !added[i] implies failed_points(attempted, added).contains(#[trigger] attempted[i]) by {
            if i < attempted.len() - 1 {
                assert(a[i] == attempted[i] && d[i] == added[i]);
                assert(rest.contains(a[i]));
                let k = choose|k: int| 0 <= k < rest.len() && rest[k] == a[i];
                if !added.last() {
                    assert(rest.push(attempted.last())[k] == attempted[i]);
                }
            } else {
                assert(rest.push(attempted.last())[rest.len() as int] == attempted[i]);
            }
        }
        assert forall|p: QueuePointsMessage| failed_points(attempted, added).contains(p) implies exists|i: int| 0 <= i < attempted.len() && !added[i] && attempted[i] == p by {
            if rest.contains(p) {
                let i = choose|i: int| 0 <= i < a.len() && !d[i] && a[i] == p;
                assert(attempted[i] == a[i] && added[i] == d[i]);
            } else {
                let k = choose|k: int| 0 <= k < failed_points(attempted, added).len() && failed_points(attempted, added)[k] == p;
                assert(!added.last());
                if k < rest.len() {
                    assert(rest[k] == p);
                }
                assert(attempted[attempted.len() - 1] == p);
            }
        }
    }
}

/// When every attempted point was added, none is queued again.
pub proof fn lemma_all_added_nothing_requeued(attempted: Seq<QueuePointsMessage>, added: Seq<bool>)
    requires
        attempted.len() == added.len(),
        forall|i: int| 0 <= i < added.len() ==> added[i],
    ensures
        failed_points(attempted, added) == Seq::<QueuePointsMessage>::empty(),
    decreases attempted.len(),
{
    if attempted.len() > 0 {
        lemma_all_added_nothing_requeued(attempted.drop_last(), added.drop_last());
        assert(added.last());
    }
}

/// How many of the additions in `added` failed.
pub open spec fn failed_count(added: Seq<bool>) -> nat
    decreases added.len(),
{
    if added.len() == 0 {
        0
    } else {
        failed_count(added.drop_last()) + if added.last() {
            0nat
        } else {
            1nat
        }
    }
}

/// A failure at `i` comes before the end of the failures counted in `added`.
proof fn lemma_failed_count_prefix(added: Seq<bool>, i: int)
    requires
        0 <= i < added.len(),
        !added[i],
    ensures
        failed_count(added.subrange(0, i)) < failed_count(added),
    decreases added.len(),
{
    let d = added.drop_last();
    if i == added.len() - 1 {
        assert(added.subrange(0, i) =~= d);
    } else {
        lemma_failed_count_prefix(d, i);
        assert(added.subrange(0, i) =~= d.subrange(0, i));
    }
}

/// The points queued again are exactly the failed attempts, with their
/// multiplicity and in their order: one entry for each failed addition, and
/// the failed attempt at `i` stands after the failures before it.
pub proof fn lemma_failed_points_exact(attempted: Seq<QueuePointsMessage>, added: Seq<bool>)
    requires
        attempted.len() == added.len(),
    ensures
        failed_points(attempted, added).len() == failed_count(added),
        forall|i: int| 0 <= i < attempted.len() && !added[i]
            ==> failed_points(attempted, added)[failed_count(#[trigger] added.subrange(0, i)) as int] == attempted[i],
    decreases attempted.len(),
{
    if attempted.len() > 0 {
        let a = attempted.drop_last();
        let d = added.drop_last();
        lemma_failed_points_exact(a, d);
        let rest = failed_points(a, d);
        let all = failed_points(attempted, added);
        assert forall|i: int| 0 <= i < attempted.len() && !added[i]
            implies all[failed_count(#[trigger] added.subrange(0, i)) as int] == attempted[i] by {
            if i < attempted.len() - 1 {
                assert(added.subrange(0, i) =~= d.subrange(0, i));
                assert(a[i] == attempted[i] && d[i] == added[i]);
                lemma_failed_count_prefix(d, i);
                assert(rest[failed_count(d.subrange(0, i)) as int] == a[i]);
            } else {
                assert(added.subrange(0, i) =~= d);
            }
        }
    }
}

} // verus!
