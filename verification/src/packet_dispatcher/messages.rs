//! The requests that the packet dispatcher serves, as plain values.
use crate::server_id::{ServerId, SocketAddress};
use vstd::prelude::*;

verus! {

/// Identifier of a user (a client account).
pub type UserId = u32;

/// Identifies a transaction: a discount asked by a coffee maker through a
/// server, an addition of points numbered by the server that makes it, or a
/// client's order, numbered by its user and the client's number for it.
#[derive(PartialEq, Eq, Structural, Copy, Clone, Debug, Hash)]
pub enum TransactionId {
    Discount(ServerId, SocketAddress, u32),
    Add(ServerId, u32),
    Order(u64),
}

/// Points queued to be added to a user; while the system is disconnected
/// they are retried from time to time.
#[derive(PartialEq, Eq, Structural, Copy, Clone, Debug, Hash)]
pub struct QueuePointsMessage {
    pub id: UserId,
    pub amount: u32,
}

/// Adds points to a user, under the user's lock and through the commit
/// algorithm.
#[derive(PartialEq, Eq, Structural, Copy, Clone, Debug, Hash)]
pub struct AddPointsMessage {
    pub id: UserId,
    pub amount: u32,
}

/// Blocks an amount of a user's points: the first phase of a discount.
#[derive(PartialEq, Eq, Structural, Copy, Clone, Debug, Hash)]
pub struct BlockPointsMessage {
    pub transaction_id: TransactionId,
    pub user_id: UserId,
    pub amount: u32,
}

/// Confirms the discount of points blocked before: the second phase.
#[derive(PartialEq, Eq, Structural, Copy, Clone, Debug, Hash)]
pub struct DiscountMessage {
    pub user_id: UserId,
    pub transaction_id: TransactionId,
}

impl QueuePointsMessage {
    /// The request that tries to add the queued points.
    pub fn to_add_points_msg(&self) -> (r: AddPointsMessage)
        ensures
            r == (AddPointsMessage { id: self.id, amount: self.amount }),
    {
        AddPointsMessage { id: self.id, amount: self.amount }
    }
}

} // verus!
