//! The packets of the two-phase commit that servers exchange, and the
//! messages that the commit coordinator receives for them.
use crate::packet_dispatcher::messages::{TransactionId, UserId};
use crate::server_id::ServerId;
use vstd::prelude::*;

verus! {

/// A change of a user's points.
#[derive(PartialEq, Eq, Structural, Copy, Clone, Debug, Hash)]
pub enum Transaction {
    Discount { id: UserId, amount: u32 },
    Increase { id: UserId, amount: u32 },
}

/// A packet of the two-phase commit.
#[derive(PartialEq, Eq, Structural, Copy, Clone, Debug, Hash)]
pub enum TwoPhaseCommitPacket {
    Prepare { id: TransactionId, transaction: Transaction },
    Commit { id: TransactionId },
    Rollback { id: TransactionId },
    VoteYes { id: TransactionId },
    VoteNo { id: TransactionId },
}

/// What the commit coordinator is told of a commit packet from another
/// server.
#[derive(PartialEq, Eq, Clone, Debug)]
pub enum TwoPhaseCommitMessage {
    Prepare { from: ServerId, id: TransactionId, transaction: Transaction },
    Commit { id: TransactionId, from: ServerId },
    Rollback { id: TransactionId },
    /// A yes vote, with the servers connected when it arrived: the commit
    /// goes on once all of them voted.
    VoteYes { id: TransactionId, from: ServerId, connected_servers: Vec<ServerId> },
    VoteNo { id: TransactionId, from: ServerId },
}

/// Asks the commit coordinator to prepare a transaction; it answers
/// whether the transaction can be made (the user has the points).
#[derive(PartialEq, Eq, Structural, Copy, Clone, Debug, Hash)]
pub struct CommitRequestMessage {
    pub id: TransactionId,
    pub transaction: Transaction,
}

/// Asks the commit coordinator to complete a prepared transaction with the
/// servers connected now.
#[derive(PartialEq, Eq, Clone, Debug)]
pub struct CommitCompleteMessage {
    pub id: TransactionId,
    pub connected_servers: Vec<ServerId>,
}

} // verus!
