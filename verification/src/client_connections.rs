//! The orders of the coffee makers that connect as clients: a prepared
//! order blocks a user's points; its commit discounts them.
use crate::packet_dispatcher::error::PacketDispatcherError;
use crate::packet_dispatcher::messages::{BlockPointsMessage, DiscountMessage, TransactionId};
use crate::server_id::SocketAddress;
use vstd::prelude::*;

verus! {

/// The transaction that a client's order `tx_id` for user `user_id` makes:
/// the user in the high 32 bits, the order in the low 32 bits.
pub open spec fn client_transaction_id_spec(user_id: u32, tx_id: u32) -> u64 {
    (user_id as nat * 0x1_0000_0000 + tx_id as nat) as u64
}

/// The transaction that a client's order makes.
pub fn client_transaction_id(user_id: u32, tx_id: u32) -> (r: u64)
    ensures
        r == client_transaction_id_spec(user_id, tx_id),
        r as nat == user_id as nat * 0x1_0000_0000 + tx_id as nat,
{
    assert(user_id as nat * 0x1_0000_0000 + tx_id as nat <= u64::MAX) by (nonlinear_arith)
        requires
            user_id <= u32::MAX,
            tx_id <= u32::MAX,
    ;
    (user_id as u64) * 0x1_0000_0000 + tx_id as u64
}

/// The request that blocks `amount` of the points of user `user_id` for the
/// client's order `tx_id`: the first phase of the order.
pub fn prepare_order_request(user_id: u32, amount: u32, tx_id: u32) -> (m: BlockPointsMessage)
    ensures
        m == (BlockPointsMessage {
            transaction_id: TransactionId::Order(client_transaction_id_spec(user_id, tx_id)),
            user_id,
            amount,
        }),
{
    BlockPointsMessage {
        transaction_id: TransactionId::Order(client_transaction_id(user_id, tx_id)),
        user_id,
        amount,
    }
}

/// The user and the transaction that `id` names: the inverse of
/// [`client_transaction_id`].
pub fn split_client_transaction_id(id: u64) -> (r: (u32, u32))
    ensures
        client_transaction_id_spec(r.0, r.1) == id,
{
    let user = (id / 0x1_0000_0000) as u32;
    let tx = (id % 0x1_0000_0000) as u32;
    assert(user as nat * 0x1_0000_0000 + tx as nat == id) by (nonlinear_arith)
        requires
            user as nat == id / 0x1_0000_0000,
            tx as nat == id % 0x1_0000_0000,
    ;
    (user, tx)
}

/// An order of a client: the address it came from and the client's number
/// for it.
pub type OrderKey = (SocketAddress, u32);

/// The user of the last order recorded for `key` in `s`, if any.
pub open spec fn lookup_order(s: Seq<(OrderKey, u32)>, key: OrderKey) -> Option<u32>
    decreases s.len(),
{
    if s.len() == 0 {
        None
    } else if s.last().0 == key {
        Some(s.last().1)
    } else {
        lookup_order(s.drop_last(), key)
    }
}

/// The orders that were prepared, each with the user it is for.
pub struct PreparedOrders {
    entries: Vec<(OrderKey, u32)>,
}

impl View for PreparedOrders {
    type V = Map<OrderKey, u32>;

    closed spec fn view(&self) -> Map<OrderKey, u32> {
        Map::new(
            |k: OrderKey| lookup_order(self.entries@, k) is Some,
            |k: OrderKey| lookup_order(self.entries@, k)->Some_0,
        )
    }
}

impl PreparedOrders {
    pub fn new() -> (r: Self)
        ensures
            r@ == Map::<OrderKey, u32>::empty(),
    {
        let r = PreparedOrders { entries: Vec::new() };
        proof {
            assert(r@ =~= Map::<OrderKey, u32>::empty());
        }
        r
    }

    /// Records that order `tx_id` of the client at `addr`, for user
    /// `user_id`, is ready: its points are blocked.
    pub fn record_ready(&mut self, addr: SocketAddress, tx_id: u32, user_id: u32)
        ensures
            final(self)@ == old(self)@.insert((addr, tx_id), user_id),
    {
        self.entries.push(((addr, tx_id), user_id));
        proof {
            assert(self.entries@.drop_last() =~= old(self).entries@);
            assert(self@ =~= old(self)@.insert((addr, tx_id), user_id));
        }
    }

    /// The user of order `tx_id` of the client at `addr`, if it was
    /// prepared.
    pub fn get(&self, addr: SocketAddress, tx_id: u32) -> (r: Option<u32>)
        ensures
            r == (if self@.contains_key((addr, tx_id)) {
                Some(self@[(addr, tx_id)])
            } else {
                None::<u32>
            }),
    {
        let key: OrderKey = (addr, tx_id);
        let mut i: usize = self.entries.len();
        proof {
            assert(self.entries@.subrange(0, i as int) =~= self.entries@);
        }
        while i > 0
            invariant
                i <= self.entries.len(),
                key == (addr, tx_id),
                lookup_order(self.entries@, key) == lookup_order(self.entries@.subrange(0, i as int), key),
            decreases i,
        {
            proof {
                assert(self.entries@.subrange(0, i as int).drop_last() =~= self.entries@.subrange(0, i - 1));
                assert(self.entries@.subrange(0, i as int).last() == self.entries@[i - 1]);
            }
            let (entry_addr, entry_tx) = self.entries[i - 1].0;
            let ghost sub = self.entries@.subrange(0, i as int);
            proof {
                assert(sub.last() == self.entries@[i - 1]);
                assert(self.entries@[i - 1].0 == (entry_addr, entry_tx));
            }
            if entry_addr == addr && entry_tx == tx_id {
                proof {
                    assert(sub.last().0 == key);
                    assert(lookup_order(sub, key) == Some(sub.last().1));
                }
                return Some(self.entries[i - 1].1);
            }
            proof {
                assert(sub.last().0 != key);
                assert(lookup_order(sub, key) == lookup_order(sub.drop_last(), key));
            }
            i = i - 1;
        }
        None
    }

    /// What committing order `tx_id` of the client at `addr` asks: the
    /// user to discount and the transaction, or nothing if the order was
    /// never prepared (the client is then told of the error).
    pub fn commit_target(&self, addr: SocketAddress, tx_id: u32) -> (r: Option<(u32, u64)>)
        ensures
            r == (if self@.contains_key((addr, tx_id)) {
                Some((self@[(addr, tx_id)], client_transaction_id_spec(self@[(addr, tx_id)], tx_id)))
            } else {
                None::<(u32, u64)>
            }),
    {
        match self.get(addr, tx_id) {
            Some(user_id) => Some((user_id, client_transaction_id(user_id, tx_id))),
            None => None,
        }
    }
}

/// Why a client's order failed.
#[derive(PartialEq, Eq, Structural, Copy, Clone, Debug, Hash)]
pub enum OrderError {
    /// The packet dispatcher refused to block the points.
    DispatcherError,
    /// The packet dispatcher could not be reached.
    Mailbox,
    /// A commit came for an order that was never prepared.
    NoPrepare,
}

/// What a server answers a client about its order `tx`.
#[derive(PartialEq, Eq, Structural, Copy, Clone, Debug, Hash)]
pub enum ServerReply {
    /// The points are blocked: the order can be committed.
    Ready(u32),
    /// The order failed.
    Error(u32, OrderError),
}

/// What a client's commit asks of the server.
#[derive(PartialEq, Eq, Structural, Copy, Clone, Debug, Hash)]
pub enum CommitAction {
    /// Discount the points of `user_id` blocked by `transaction_id`.
    Discount(DiscountMessage),
    /// Answer the client: the commit cannot be done.
    Reply(ServerReply),
}

/// What committing order `tx_id` of the client at `addr` does, when the
/// orders `prepared` are ready.
pub open spec fn commit_action_for(prepared: Map<OrderKey, u32>, addr: SocketAddress, tx_id: u32) -> CommitAction {
    if prepared.contains_key((addr, tx_id)) {
        CommitAction::Discount(DiscountMessage {
            user_id: prepared[(addr, tx_id)],
            transaction_id: TransactionId::Order(client_transaction_id_spec(prepared[(addr, tx_id)], tx_id)),
        })
    } else {
        CommitAction::Reply(ServerReply::Error(tx_id, OrderError::NoPrepare))
    }
}

/// The orders of the clients that this server serves.
pub struct ClientConnections {
    prep_transactions: PreparedOrders,
}

impl ClientConnections {
    pub fn new() -> (r: Self)
        ensures
            r.prepared()@ == Map::<OrderKey, u32>::empty(),
    {
        ClientConnections { prep_transactions: PreparedOrders::new() }
    }

    pub closed spec fn prepared(&self) -> PreparedOrders {
        self.prep_transactions
    }

    /// The orders that are ready to be committed.
    pub fn prepared_orders(&self) -> (r: &PreparedOrders)
        ensures
            r@ == self.prepared()@,
    {
        &self.prep_transactions
    }

    /// Ends the preparation of order `tx_id` of user `user_id` from the
    /// client at `addr`, given what blocking the points gave (`Err` when the
    /// dispatcher could not be reached). A blocked order is recorded and
    /// the client told it is ready; otherwise the client is told the error.
    pub fn prepare_order_finished(
        &mut self,
        addr: SocketAddress,
        tx_id: u32,
        user_id: u32,
        blocked: Result<Result<(), PacketDispatcherError>, ()>,
    ) -> (reply: ServerReply)
        ensures
            blocked matches Ok(Ok(_)) ==> reply == ServerReply::Ready(tx_id)
                && final(self).prepared()@ == old(self).prepared()@.insert((addr, tx_id), user_id),
            blocked matches Ok(Err(_)) ==> reply == ServerReply::Error(tx_id, OrderError::DispatcherError)
                && final(self).prepared()@ == old(self).prepared()@,
            blocked is Err ==> reply == ServerReply::Error(tx_id, OrderError::Mailbox)
                && final(self).prepared()@ == old(self).prepared()@,
    {
        match blocked {
            Ok(Ok(_)) => {
                self.prep_transactions.record_ready(addr, tx_id, user_id);
                ServerReply::Ready(tx_id)
            },
            Ok(Err(_)) => ServerReply::Error(tx_id, OrderError::DispatcherError),
            Err(_) => ServerReply::Error(tx_id, OrderError::Mailbox),
        }
    }

    /// What committing order `tx_id` of the client at `addr` does: discount
    /// the points of the user it was prepared for, or tell the client that
    /// no such order was prepared.
    pub fn commit_order(&self, addr: SocketAddress, tx_id: u32) -> (action: CommitAction)
        ensures
            action == commit_action_for(self.prepared()@, addr, tx_id),
    {
        match self.prep_transactions.commit_target(addr, tx_id) {
            Some((user_id, transaction_id)) => CommitAction::Discount(
                DiscountMessage { user_id, transaction_id: TransactionId::Order(transaction_id) },
            ),
            None => CommitAction::Reply(ServerReply::Error(tx_id, OrderError::NoPrepare)),
        }
    }
}

/// An order that was prepared can be committed: the commit discounts the
/// points of the user it was prepared for, under the transaction of that
/// user and order.
pub proof fn lemma_prepared_order_commits(
    prepared: Map<OrderKey, u32>,
    addr: SocketAddress,
    tx_id: u32,
    user_id: u32,
)
    ensures
        commit_action_for(prepared.insert((addr, tx_id), user_id), addr, tx_id) == CommitAction::Discount(
            DiscountMessage { user_id, transaction_id: TransactionId::Order(client_transaction_id_spec(user_id, tx_id)) },
        ),
{
}

/// Different orders make different transactions: the transaction names
/// the user and the order back.
pub proof fn lemma_client_transaction_id_injective(u1: u32, t1: u32, u2: u32, t2: u32)
    requires
        client_transaction_id_spec(u1, t1) == client_transaction_id_spec(u2, t2),
    ensures
        u1 == u2,
        t1 == t2,
{
    assert(u1 as nat * 0x1_0000_0000 + t1 as nat == u2 as nat * 0x1_0000_0000 + t2 as nat) by (nonlinear_arith)
        requires
            u1 as nat * 0x1_0000_0000 + t1 as nat <= u64::MAX,
            u2 as nat * 0x1_0000_0000 + t2 as nat <= u64::MAX,
            client_transaction_id_spec(u1, t1) == client_transaction_id_spec(u2, t2),
    ;
    assert(u1 == u2 && t1 == t2) by (nonlinear_arith)
        requires
            u1 as nat * 0x1_0000_0000 + t1 as nat == u2 as nat * 0x1_0000_0000 + t2 as nat,
            t1 < 0x1_0000_0000,
            t2 < 0x1_0000_0000,
    ;
}

} // verus!
