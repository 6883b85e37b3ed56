//! Errors of the packet dispatcher, and how the outcomes of its steps map to
//! them.
use crate::dist_mutex::MutexError;
use vstd::prelude::*;

verus! {

/// Why an operation of the packet dispatcher failed.
#[derive(PartialEq, Eq, Structural, Copy, Clone, Debug, Hash)]
pub enum PacketDispatcherError {
    Timeout,
    InsufficientPoints,
    DiscountFailed,
    IncreaseFailed,
    ActixMailboxFull,
    ServerDisconnected,
    Other,
}

/// Why a two-phase commit failed.
#[derive(PartialEq, Eq, Structural, Copy, Clone, Debug, Hash)]
pub enum CommitError {
    Timeout,
    Disconnected,
}

/// The dispatcher error that a failed commit becomes.
pub open spec fn commit_error_spec(e: CommitError) -> PacketDispatcherError {
    match e {
        CommitError::Timeout => PacketDispatcherError::Timeout,
        CommitError::Disconnected => PacketDispatcherError::ServerDisconnected,
    }
}

impl From<CommitError> for PacketDispatcherError {
    fn from(e: CommitError) -> (r: PacketDispatcherError) {
        match e {
            CommitError::Timeout => PacketDispatcherError::Timeout,
            CommitError::Disconnected => PacketDispatcherError::ServerDisconnected,
        }
    }
}

impl vstd::std_specs::convert::FromSpecImpl<CommitError> for PacketDispatcherError {
    open spec fn obeys_from_spec() -> bool {
        true
    }

    open spec fn from_spec(v: CommitError) -> PacketDispatcherError {
        commit_error_spec(v)
    }
}

/// The error kind that a client is told of: insufficient points are told as
/// such, every other failure by its name.
#[derive(PartialEq, Eq, Structural, Copy, Clone, Debug, Hash)]
pub enum ClientErrorKind {
    InsufficientPoints,
    Other(PacketDispatcherError),
}

impl PacketDispatcherError {
    /// What a client is told of this error.
    pub fn client_error_kind(self) -> (r: ClientErrorKind)
        ensures
            self == PacketDispatcherError::InsufficientPoints ==> r == ClientErrorKind::InsufficientPoints,
            self != PacketDispatcherError::InsufficientPoints ==> r == ClientErrorKind::Other(self),
    {
        match self {
            PacketDispatcherError::InsufficientPoints => ClientErrorKind::InsufficientPoints,
            _ => ClientErrorKind::Other(self),
        }
    }
}

/// The outcome of running an action under the lock of a user's mutex.
#[derive(PartialEq, Eq, Clone, Debug)]
pub enum LockedOutcome<T> {
    /// The mutex could not be reached.
    Unreachable,
    /// The mutex was reached but not acquired.
    NotAcquired(MutexError),
    /// The action ran while the lock was held, with this result.
    Ran(T),
}

/// What blocking points answers, given the outcome of the commit request
/// made under the user's lock: whether the user had enough points, or `None`
/// if the request failed.
pub open spec fn block_points_result_spec(outcome: LockedOutcome<Option<bool>>) -> Result<(), PacketDispatcherError> {
    match outcome {
        LockedOutcome::Ran(Some(true)) => Ok(()),
        LockedOutcome::Ran(Some(false)) => Err(PacketDispatcherError::InsufficientPoints),
        _ => Err(PacketDispatcherError::Other),
    }
}

/// What blocking points answers for the outcome of its commit request.
pub fn block_points_result(outcome: LockedOutcome<Option<bool>>) -> (r: Result<(), PacketDispatcherError>)
    ensures
        r == block_points_result_spec(outcome),
{
    match outcome {
        LockedOutcome::Ran(Some(true)) => Ok(()),
        LockedOutcome::Ran(Some(false)) => Err(PacketDispatcherError::InsufficientPoints),
        _ => Err(PacketDispatcherError::Other),
    }
}

/// What a discount answers, given whether the commit completed under the
/// user's lock.
pub fn discount_result(outcome: LockedOutcome<bool>) -> (r: Result<(), PacketDispatcherError>)
    ensures
        r == (if outcome == LockedOutcome::Ran(true) {
            Ok::<(), PacketDispatcherError>(())
        } else {
            Err(PacketDispatcherError::DiscountFailed)
        }),
{
    match outcome {
        LockedOutcome::Ran(true) => Ok(()),
        _ => Err(PacketDispatcherError::DiscountFailed),
    }
}

/// The result of the two commit steps that add points, run under the lock:
/// the commit request (whether the points can be added, or why it failed),
/// then, only when it allowed them, the completion of the commit (whether it
/// succeeded, or why it could not be asked).
pub open spec fn add_points_steps_spec(
    can_add: Result<bool, PacketDispatcherError>,
    completed: Result<bool, PacketDispatcherError>,
) -> Result<(), PacketDispatcherError> {
    match can_add {
        Err(e) => Err(e),
        Ok(false) => Err(PacketDispatcherError::IncreaseFailed),
        Ok(true) => match completed {
            Err(e) => Err(e),
            Ok(true) => Ok(()),
            Ok(false) => Err(PacketDispatcherError::IncreaseFailed),
        },
    }
}

/// The result of the two commit steps that add points.
pub fn add_points_steps(
    can_add: Result<bool, PacketDispatcherError>,
    completed: Result<bool, PacketDispatcherError>,
) -> (r: Result<(), PacketDispatcherError>)
    ensures
        r == add_points_steps_spec(can_add, completed),
{
    match can_add {
        Err(e) => Err(e),
        Ok(false) => Err(PacketDispatcherError::IncreaseFailed),
        Ok(true) => match completed {
            Err(e) => Err(e),
            Ok(true) => Ok(()),
            Ok(false) => Err(PacketDispatcherError::IncreaseFailed),
        },
    }
}

/// What adding points answers, given the outcome of its steps run under
/// the user's lock.
pub fn add_points_result(outcome: LockedOutcome<Result<(), PacketDispatcherError>>) -> (r: Result<(), PacketDispatcherError>)
    ensures
        r == match outcome {
            LockedOutcome::Unreachable => Err(PacketDispatcherError::ActixMailboxFull),
            LockedOutcome::NotAcquired(_) => Err(PacketDispatcherError::IncreaseFailed),
            LockedOutcome::Ran(result) => result,
        },
{
    match outcome {
        LockedOutcome::Unreachable => Err(PacketDispatcherError::ActixMailboxFull),
        LockedOutcome::NotAcquired(_) => Err(PacketDispatcherError::IncreaseFailed),
        LockedOutcome::Ran(result) => result,
    }
}

} // verus!
