//! The distributed mutex: one per resource, granted by the agreement of all
//! connected servers (the Ricart–Agrawala algorithm).
//!
//! A [`DistMutex`] holds the decisions of one server's mutex for one
//! resource. It is driven by events (a request, an ack or an ok from another
//! server; the start of an acquisition; the end of a wait; a release) and
//! answers each with the packets to send.
use crate::dist_mutex::messages::{AckMessage, OkMessage, RequestMessage, Timestamp};
use crate::dist_mutex::packets::{AckPacket, MutexPacket, OkPacket, RequestPacket, ResourceId};
use crate::server_id::ServerId;
use vstd::prelude::*;

pub mod do_with_lock;
pub mod messages;
pub mod packets;
pub mod server_id;

verus! {

/// Why a mutex could not be acquired.
#[derive(PartialEq, Eq, Clone, Debug, Hash)]
pub enum MutexError {
    /// The mutex was not acquired in the time allowed.
    Timeout,
    /// This server is cut off from the network.
    Disconnected,
    /// A message could not be delivered to another actor.
    Mailbox(String),
}

/// What a server does when the first wait for the oks of an acquisition ends
/// without all of them.
#[derive(PartialEq, Eq, Structural, Copy, Clone, Debug)]
pub enum AcquireStep {
    /// Every server that acknowledged the request has also sent its ok: the
    /// lock is held. The servers that stayed silent are pruned: those not
    /// seen since `prune_older_than` count as disconnected.
    Acquired { prune_older_than: Timestamp },
    /// No server acknowledged the request: this server is disconnected.
    Disconnected,
    /// Some server that acknowledged holds the lock: wait once more.
    WaitLonger,
}

/// The state of one server's mutex for one resource, as plain values.
pub struct DistMutexView {
    pub server_id: ServerId,
    pub id: ResourceId,
    /// The servers that asked for the mutex while it was held or awaited
    /// with priority, with the timestamps of their requests, in the order
    /// the requests arrived.
    pub queue: Seq<(Timestamp, ServerId)>,
    /// When this server began to wait for the mutex; `None` when it neither
    /// waits for nor holds it.
    pub lock_timestamp: Option<Timestamp>,
    /// The servers that acknowledged this server's request.
    pub acks: Set<ServerId>,
    /// The servers that granted this server's request.
    pub oks: Set<ServerId>,
    /// Whether an acquisition waits for its oks.
    pub waiting: bool,
}

/// One server's mutex for one resource.
pub struct DistMutex {
    server_id: ServerId,
    id: ResourceId,
    queue: Vec<(Timestamp, ServerId)>,
    lock_timestamp: Option<Timestamp>,
    ack_received: Vec<ServerId>,
    ok_received: Vec<ServerId>,
    waiting_for_oks: bool,
}

impl View for DistMutex {
    type V = DistMutexView;

    closed spec fn view(&self) -> DistMutexView {
        DistMutexView {
            server_id: self.server_id,
            id: self.id,
            queue: self.queue@,
            lock_timestamp: self.lock_timestamp,
            acks: self.ack_received@.to_set(),
            oks: self.ok_received@.to_set(),
            waiting: self.waiting_for_oks,
        }
    }
}

/// Whether a server whose own request is stamped `lock` (none if it does not
/// want the mutex) grants a request stamped `requested`: it does unless its
/// own request is not later than the other.
pub open spec fn request_granted(lock: Option<Timestamp>, requested: Timestamp) -> bool {
    match lock {
        None => true,
        Some(mine) => mine.time > requested.time,
    }
}

/// The servers of `queue` other than `me`, in queue order: those that a
/// release grants the mutex to.
pub open spec fn release_targets(queue: Seq<(Timestamp, ServerId)>, me: ServerId) -> Seq<ServerId>
    decreases queue.len(),
{
    if queue.len() == 0 {
        Seq::empty()
    } else {
        let rest = release_targets(queue.drop_last(), me);
        if queue.last().1 != me {
            rest.push(queue.last().1)
        } else {
            rest
        }
    }
}

/// The packets that answer a request for resource `id` from a server that
/// the request is (`granted`) or is not granted to: always an ack, and an ok
/// when granted.
pub open spec fn request_answer(id: ResourceId, granted: bool) -> Seq<MutexPacket> {
    if granted {
        seq![MutexPacket::Ack(AckPacket { id }), MutexPacket::Okay(OkPacket { id })]
    } else {
        seq![MutexPacket::Ack(AckPacket { id })]
    }
}

/// The mutex `m` after the request of `from`, stamped `timestamp`: the
/// requester joins the queue unless the request is granted.
pub open spec fn after_request(m: DistMutexView, from: ServerId, timestamp: Timestamp) -> DistMutexView {
    DistMutexView {
        queue: if request_granted(m.lock_timestamp, timestamp) {
            m.queue
        } else {
            m.queue.push((timestamp, from))
        },
        ..m
    }
}

/// The mutex `m` after an ack from `from`.
pub open spec fn after_ack(m: DistMutexView, from: ServerId) -> DistMutexView {
    DistMutexView { acks: m.acks.insert(from), ..m }
}

/// Whether an ok from `from` completes the waiting acquisition of `m`: every
/// connected server has then granted it.
pub open spec fn ok_completes(m: DistMutexView, from: ServerId, connected: Set<ServerId>) -> bool {
    m.waiting && connected.subset_of(m.oks.insert(from))
}

/// The mutex `m` after an ok from `from`, with `connected` the servers that
/// count as connected.
pub open spec fn after_ok(m: DistMutexView, from: ServerId, connected: Set<ServerId>) -> DistMutexView {
    DistMutexView {
        oks: m.oks.insert(from),
        waiting: m.waiting && !ok_completes(m, from, connected),
        ..m
    }
}

/// The mutex `m` cleaned for a new acquisition, as after a restart: the
/// acks and oks are forgotten and nothing is awaited; the queue and the
/// timestamp stay.
pub open spec fn restarted(m: DistMutexView) -> DistMutexView {
    DistMutexView { acks: Set::empty(), oks: Set::empty(), waiting: false, ..m }
}

/// A fresh mutex of server `server_id` for resource `id`.
pub open spec fn fresh_mutex(server_id: ServerId, id: ResourceId) -> DistMutexView {
    DistMutexView {
        server_id,
        id,
        queue: Seq::empty(),
        lock_timestamp: None,
        acks: Set::empty(),
        oks: Set::empty(),
        waiting: false,
    }
}

/// Inserts `s` into the list of servers `v`, unless it is there already.
fn insert_server(v: &mut Vec<ServerId>, s: ServerId)
    ensures
        final(v)@.to_set() == old(v)@.to_set().insert(s),
{
    let mut i: usize = 0;
    while i < v.len()
        invariant
            i <= v.len(),
            forall|j: int| 0 <= j < i ==> v@[j] != s,
        decreases v.len() - i,
    {
        if v[i] == s {
            proof {
                assert(v@.to_set().insert(s) =~= v@.to_set());
            }
            return;
        }
        i = i + 1;
    }
    let ghost before = v@;
    v.push(s);
    proof {
        assert(v@.to_set() =~= before.to_set().insert(s)) by {
            assert forall|x: ServerId| v@.to_set().contains(x) <==> before.to_set().insert(s).contains(x) by {
                if v@.to_set().contains(x) {
                    let k = choose|k: int| 0 <= k < v@.len() && v@[k] == x;
                    if k < before.len() {
                        assert(before[k] == x);
                    }
                }
                if before.to_set().contains(x) {
                    let k = choose|k: int| 0 <= k < before.len() && before[k] == x;
                    assert(v@[k] == x);
                }
                if x == s {
                    assert(v@[before.len() as int] == x);
                }
            }
        }
    }
}

/// Whether `s` is in the list of servers `v`.
pub fn contains_server(v: &Vec<ServerId>, s: ServerId) -> (r: bool)
    ensures
        r == v@.to_set().contains(s),
{
    let mut i: usize = 0;
    while i < v.len()
        invariant
            i <= v.len(),
            forall|j: int| 0 <= j < i ==> v@[j] != s,
        decreases v.len() - i,
    {
        if v[i] == s {
            proof {
                assert(v@.to_set().contains(v@[i as int]));
            }
            return true;
        }
        i = i + 1;
    }
    proof {
        if v@.to_set().contains(s) {
            let k = choose|k: int| 0 <= k < v@.len() && v@[k] == s;
            assert(v@[k] != s);
        }
    }
    false
}

/// Whether every server of `a` is in `b`.
pub fn servers_subset(a: &Vec<ServerId>, b: &Vec<ServerId>) -> (r: bool)
    ensures
        r == a@.to_set().subset_of(b@.to_set()),
{
    let mut i: usize = 0;
    while i < a.len()
        invariant
            i <= a.len(),
            forall|j: int| 0 <= j < i ==> b@.to_set().contains(#[trigger] a@[j]),
        decreases a.len() - i,
    {
        if !contains_server(b, a[i]) {
            proof {
                assert(a@.to_set().contains(a@[i as int]));
            }
            return false;
        }
        i = i + 1;
    }
    proof {
        assert forall|x: ServerId| a@.to_set().contains(x) implies b@.to_set().contains(x) by {
            let k = choose|k: int| 0 <= k < a@.len() && a@[k] == x;
        }
    }
    true
}

impl DistMutex {
    /// The mutex of server `server_id` for resource `id`, neither awaited nor
    /// held.
    pub fn new(server_id: ServerId, id: ResourceId) -> (r: Self)
        ensures
            r@ == fresh_mutex(server_id, id),
    {
        let r = DistMutex {
            server_id,
            id,
            queue: Vec::new(),
            lock_timestamp: None,
            ack_received: Vec::new(),
            ok_received: Vec::new(),
            waiting_for_oks: false,
        };
        proof {
            assert(r.ack_received@.to_set() =~= Set::<ServerId>::empty());
            assert(r.ok_received@.to_set() =~= Set::<ServerId>::empty());
        }
        r
    }

    pub fn server_id(&self) -> (r: ServerId)
        ensures
            r == self@.server_id,
    {
        self.server_id
    }

    pub fn id(&self) -> (r: ResourceId)
        ensures
            r == self@.id,
    {
        self.id
    }

    /// Forgets the acks and oks of the last acquisition and stops waiting
    /// for them, so that the mutex can be used again. The queue and the
    /// timestamp stay.
    pub fn clean_state(&mut self)
        ensures
            final(self)@ == restarted(old(self)@),
    {
        self.ack_received = Vec::new();
        self.ok_received = Vec::new();
        self.waiting_for_oks = false;
        proof {
            assert(self.ack_received@.to_set() =~= Set::<ServerId>::empty());
            assert(self.ok_received@.to_set() =~= Set::<ServerId>::empty());
        }
    }

    /// Records that `msg.from` acknowledged this server's request.
    pub fn handle_ack(&mut self, msg: AckMessage)
        ensures
            final(self)@ == after_ack(old(self)@, msg.from),
    {
        insert_server(&mut self.ack_received, msg.from);
    }

    /// Records that `msg.from` granted this server's request, where
    /// `msg.connected_servers` are the servers that count as connected.
    /// Returns whether the waiting acquisition now has all the oks it
    /// needs, in which case the mutex stops waiting.
    pub fn handle_ok(&mut self, msg: &OkMessage) -> (all_received: bool)
        ensures
            all_received == ok_completes(old(self)@, msg.from, msg.connected_servers@.to_set()),
            final(self)@ == after_ok(old(self)@, msg.from, msg.connected_servers@.to_set()),
    {
        insert_server(&mut self.ok_received, msg.from);
        if servers_subset(&msg.connected_servers, &self.ok_received) && self.waiting_for_oks {
            self.waiting_for_oks = false;
            true
        } else {
            false
        }
    }

    /// Answers the request of `msg.from`, stamped `msg.timestamp`: always
    /// with an ack, and with an ok unless this server wants the mutex with an
    /// older or equal timestamp; in that case the requester joins the queue.
    pub fn handle_request(&mut self, msg: RequestMessage) -> (answer: Vec<MutexPacket>)
        ensures
            answer@ == request_answer(old(self)@.id, request_granted(old(self)@.lock_timestamp, msg.timestamp)),
            final(self)@ == after_request(old(self)@, msg.from, msg.timestamp),
    {
        let from = msg.from;
        let timestamp = msg.timestamp;
        let mut answer = Vec::new();
        answer.push(MutexPacket::Ack(AckPacket { id: self.id }));
        let granted = match &self.lock_timestamp {
            None => true,
            Some(mine) => mine.is_after(&timestamp),
        };
        if granted {
            answer.push(MutexPacket::Okay(OkPacket { id: self.id }));
        } else {
            self.queue.push((timestamp, from));
        }
        proof {
            assert(answer@ =~= request_answer(self.id, granted));
        }
        answer
    }

    /// Starts to acquire the mutex at time `now`: forgets the last
    /// acquisition, waits for oks, and returns the request to broadcast.
    pub fn start_acquire(&mut self, now: Timestamp) -> (request: RequestPacket)
        ensures
            request == (RequestPacket { id: old(self)@.id, timestamp: now }),
            final(self)@ == (DistMutexView {
                lock_timestamp: Some(now),
                acks: Set::empty(),
                oks: Set::empty(),
                waiting: true,
                ..old(self)@
            }),
    {
        self.clean_state();
        self.lock_timestamp = Some(now);
        self.waiting_for_oks = true;
        RequestPacket::new(self.id, now)
    }

    /// Decides what an acquisition does when its first wait for oks ends
    /// without all of them: it is disconnected if nobody acknowledged; it
    /// holds the lock if every server that acknowledged also granted;
    /// otherwise it waits once more. A disconnected server stops wanting
    /// the mutex.
    pub fn first_wait_expired(&mut self) -> (step: AcquireStep)
        requires
            old(self)@.lock_timestamp is Some,
        ensures
            old(self)@.acks.is_empty() ==> step == AcquireStep::Disconnected,
            !old(self)@.acks.is_empty() && old(self)@.oks == old(self)@.acks ==> step == (AcquireStep::Acquired {
                prune_older_than: old(self)@.lock_timestamp->Some_0,
            }),
            !old(self)@.acks.is_empty() && old(self)@.oks != old(self)@.acks ==> step == AcquireStep::WaitLonger,
            final(self)@ == (DistMutexView {
                lock_timestamp: if step == AcquireStep::Disconnected {
                    None
                } else {
                    old(self)@.lock_timestamp
                },
                waiting: step == AcquireStep::WaitLonger,
                ..old(self)@
            }),
    {
        if self.ack_received.len() == 0 {
            proof {
                assert(self@.acks =~= Set::<ServerId>::empty());
            }
            self.waiting_for_oks = false;
            self.lock_timestamp = None;
            AcquireStep::Disconnected
        } else {
            proof {
                assert(self@.acks.contains(self.ack_received@[0]));
            }
            let same = servers_subset(&self.ok_received, &self.ack_received)
                && servers_subset(&self.ack_received, &self.ok_received);
            proof {
                if same {
                    assert(self@.oks =~= self@.acks);
                }
            }
            if same {
                self.waiting_for_oks = false;
                let prune_older_than = self.lock_timestamp.unwrap();
                AcquireStep::Acquired { prune_older_than }
            } else {
                self.waiting_for_oks = true;
                AcquireStep::WaitLonger
            }
        }
    }

    /// The second wait for oks ended without all of them: the acquisition
    /// fails with a timeout and the server stops wanting the mutex.
    pub fn second_wait_expired(&mut self) -> (e: MutexError)
        ensures
            e == MutexError::Timeout,
            final(self)@ == (DistMutexView { lock_timestamp: None, waiting: false, ..old(self)@ }),
    {
        self.lock_timestamp = None;
        self.waiting_for_oks = false;
        MutexError::Timeout
    }

    /// Releases the mutex: grants it to every queued server but this one,
    /// in queue order, empties the queue and forgets the acquisition. A
    /// mutex that is neither held nor awaited is left as it is.
    pub fn release(&mut self) -> (granted_to: Vec<ServerId>)
        ensures
            old(self)@.lock_timestamp is None ==> granted_to@ == Seq::<ServerId>::empty() && final(self)@ == old(self)@,
            old(self)@.lock_timestamp is Some ==> granted_to@ == release_targets(old(self)@.queue, old(self)@.server_id)
                && final(self)@ == (DistMutexView {
                queue: Seq::empty(),
                lock_timestamp: None,
                acks: Set::empty(),
                oks: Set::empty(),
                waiting: false,
                ..old(self)@
            }),
    {
        let mut granted_to: Vec<ServerId> = Vec::new();
        if self.lock_timestamp.is_none() {
            return granted_to;
        }
        let mut i: usize = 0;
        while i < self.queue.len()
            invariant
                i <= self.queue.len(),
                granted_to@ == release_targets(self.queue@.subrange(0, i as int), self.server_id),
            decreases self.queue.len() - i,
        {
            proof {
                assert(self.queue@.subrange(0, i + 1).drop_last() =~= self.queue@.subrange(0, i as int));
            }
            let server = self.queue[i].1;
            if server != self.server_id {
                granted_to.push(server);
            }
            i = i + 1;
        }
        proof {
            assert(self.queue@.subrange(0, self.queue.len() as int) =~= self.queue@);
        }
        self.queue = Vec::new();
        self.lock_timestamp = None;
        self.clean_state();
        granted_to
    }
}

/// Two servers that both want the mutex never grant each other's requests:
/// whatever the two timestamps, at most one of them answers the other with
/// an ok.
pub proof fn lemma_no_mutual_grant(mine: Timestamp, theirs: Timestamp)
    ensures
        !(request_granted(Some(mine), theirs) && request_granted(Some(theirs), mine)),
{
}

/// Between two servers that want the mutex with different timestamps, the
/// older request wins: its server is granted the other's ok, and not the
/// other way round.
pub proof fn lemma_older_request_wins(older: Timestamp, younger: Timestamp)
    requires
        older.time < younger.time,
    ensures
        request_granted(Some(younger), older),
        !request_granted(Some(older), younger),
{
}

/// A request that is not granted at once is granted when the mutex is
/// released: its server is among those that the release sends an ok to,
/// after the servers queued before it.
pub proof fn lemma_deferred_request_granted_on_release(m: DistMutexView, from: ServerId, timestamp: Timestamp)
    requires
        !request_granted(m.lock_timestamp, timestamp),
        from != m.server_id,
    ensures
        after_request(m, from, timestamp).lock_timestamp is Some,
        release_targets(after_request(m, from, timestamp).queue, m.server_id)
            == release_targets(m.queue, m.server_id).push(from),
{
    let q = m.queue.push((timestamp, from));
    assert(q.drop_last() =~= m.queue);
}

/// A release never sends an ok to the server that releases.
pub proof fn lemma_release_skips_self(queue: Seq<(Timestamp, ServerId)>, me: ServerId)
    ensures
        !release_targets(queue, me).contains(me),
    decreases queue.len(),
{
    if queue.len() > 0 {
        lemma_release_skips_self(queue.drop_last(), me);
    }
}

/// A release sends an ok to every queued server but the releasing one.
pub proof fn lemma_release_reaches_queue(queue: Seq<(Timestamp, ServerId)>, me: ServerId, i: int)
    requires
        0 <= i < queue.len(),
        queue[i].1 != me,
    ensures
        release_targets(queue, me).contains(queue[i].1),
    decreases queue.len(),
{
    let rest = release_targets(queue.drop_last(), me);
    if i < queue.len() - 1 {
        lemma_release_reaches_queue(queue.drop_last(), me, i);
        let k = choose|k: int| 0 <= k < rest.len() && rest[k] == queue[i].1;
        if queue.last().1 != me {
            assert(rest.push(queue.last().1)[k] == queue[i].1);
        }
    } else {
        assert(rest.push(queue.last().1)[rest.len() as int] == queue[i].1);
    }
}

/// Answering a request never drops a queued request: every request queued
/// before keeps its place, and a granted request leaves the queue as it was.
/// The rest of the mutex (its own acquisition) is untouched by another
/// server's request.
pub proof fn lemma_request_keeps_queue(m: DistMutexView, from: ServerId, timestamp: Timestamp)
    ensures
        m.queue.len() <= after_request(m, from, timestamp).queue.len() <= m.queue.len() + 1,
        forall|i: int| 0 <= i < m.queue.len() ==> #[trigger] after_request(m, from, timestamp).queue[i] == m.queue[i],
        request_granted(m.lock_timestamp, timestamp) ==> after_request(m, from, timestamp).queue == m.queue,
        after_request(m, from, timestamp).lock_timestamp == m.lock_timestamp,
        after_request(m, from, timestamp).acks == m.acks,
        after_request(m, from, timestamp).oks == m.oks,
        after_request(m, from, timestamp).waiting == m.waiting,
{
}

/// The servers that a release reaches in queue `q` come first among those it
/// reaches in any longer queue that starts with `q`.
proof fn lemma_release_targets_prefix(q: Seq<(Timestamp, ServerId)>, longer: Seq<(Timestamp, ServerId)>, me: ServerId)
    requires
        q.len() <= longer.len(),
        forall|i: int| 0 <= i < q.len() ==> #[trigger] longer[i] == q[i],
    ensures
        release_targets(q, me).len() <= release_targets(longer, me).len(),
        forall|i: int| 0 <= i < release_targets(q, me).len()
            ==> #[trigger] release_targets(longer, me)[i] == release_targets(q, me)[i],
    decreases longer.len(),
{
    if longer.len() > q.len() {
        let shorter = longer.drop_last();
        lemma_release_targets_prefix(q, shorter, me);
    } else {
        assert(longer =~= q);
    }
}

/// A request deferred before a release is among the release's targets,
/// whatever other requests were answered in between: answering requests only
/// adds to the servers that a release reaches, in the order they were
/// deferred.
pub proof fn lemma_deferred_request_survives_requests(
    m: DistMutexView,
    from: ServerId,
    timestamp: Timestamp,
    other: ServerId,
    other_timestamp: Timestamp,
)
    requires
        !request_granted(m.lock_timestamp, timestamp),
        from != m.server_id,
    ensures
        release_targets(
            after_request(after_request(m, from, timestamp), other, other_timestamp).queue,
            m.server_id,
        ).contains(from),
        ({
            let before = release_targets(m.queue, m.server_id);
            let after = release_targets(after_request(after_request(m, from, timestamp), other, other_timestamp).queue, m.server_id);
            before.len() < after.len() && forall|i: int| 0 <= i < before.len() ==> #[trigger] after[i] == before[i]
        }),
{
    let m1 = after_request(m, from, timestamp);
    let m2 = after_request(m1, other, other_timestamp);
    lemma_request_keeps_queue(m1, other, other_timestamp);
    lemma_deferred_request_granted_on_release(m, from, timestamp);
    lemma_release_targets_prefix(m1.queue, m2.queue, m.server_id);
    let t1 = release_targets(m1.queue, m.server_id);
    let t2 = release_targets(m2.queue, m.server_id);
    assert(t1[t1.len() - 1] == from);
    assert(t2[t1.len() - 1] == from);
}

} // verus!
